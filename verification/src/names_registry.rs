//! A registry of DAO names. A DAO registers one name by paying a fee
//! in a configured cw20 or native token; the admin may reserve names,
//! hand a reserved name to a DAO, and revoke any name. Names and DAOs
//! are kept in two tables that always mirror each other.
//!
//! Addresses reach the handlers already validated; whether a token
//! address answers as a cw20 contract is asked of the chain by the
//! caller and handed in.
use crate::std_error::StdError;
use crate::table::StrMap;
use vstd::prelude::*;

verus! {

/// How a name is paid for.
#[derive(Debug)]
pub enum PaymentInfo {
    Cw20Payment { token_address: String, payment_amount: u128 },
    NativePayment { token_denom: String, payment_amount: u128 },
}

impl PaymentInfo {
    pub open spec fn amount(&self) -> u128 {
        match self {
            PaymentInfo::Cw20Payment { payment_amount, .. } => *payment_amount,
            PaymentInfo::NativePayment { payment_amount, .. } => *payment_amount,
        }
    }

    pub fn duplicate(&self) -> (r: PaymentInfo)
        ensures
            r == *self,
    {
        match self {
            PaymentInfo::Cw20Payment { token_address, payment_amount } => {
                PaymentInfo::Cw20Payment {
                    token_address: token_address.clone(),
                    payment_amount: *payment_amount,
                }
            },
            PaymentInfo::NativePayment { token_denom, payment_amount } => {
                PaymentInfo::NativePayment {
                    token_denom: token_denom.clone(),
                    payment_amount: *payment_amount,
                }
            },
        }
    }
}

/// The registry's configuration.
#[derive(Debug)]
pub struct Config {
    pub admin: String,
    pub payment_info: PaymentInfo,
}

impl Config {
    pub fn duplicate(&self) -> (r: Config)
        ensures
            r == *self,
    {
        Config { admin: self.admin.clone(), payment_info: self.payment_info.duplicate() }
    }
}

/// Why the registry refuses a message.
#[derive(Clone, Copy, Debug, PartialEq, Eq, Structural)]
pub enum ContractError {
    Std(StdError),
    Unauthorized {},
    IncorrectPaymentAmount {},
    NameReserved {},
    NameNotReserved {},
    NameAlreadyTaken {},
    AlreadyRegisteredName {},
    InvalidPaymentAmount {},
    NameNotRegistered {},
    InvalidCw20 {},
    UnrecognisedCw20 {},
    UnrecognisedNativeToken {},
    InvalidPayment {},
}

/// What a cw20 contract may ask the registry to do with tokens sent to it.
#[derive(Clone, Debug, PartialEq, Eq)]
pub enum ReceiveMsg {
    /// Register this name for the sender of the tokens.
    Register { name: String },
}

/// Whether a name is registered and whether it is reserved.
#[derive(Clone, Copy, Debug, PartialEq, Eq, Structural)]
pub struct IsNameAvailableToRegisterResponse {
    pub taken: bool,
    pub reserved: bool,
}

/// The name a DAO registered, if any.
#[derive(Clone, Debug, PartialEq, Eq)]
pub struct LookUpDaoResponse {
    pub name: Option<String>,
}

/// The DAO a name is registered to, if any.
#[derive(Clone, Debug, PartialEq, Eq)]
pub struct LookUpNameResponse {
    pub dao: Option<String>,
}

/// An amount of a native token.
#[derive(Clone, Debug, PartialEq, Eq)]
pub struct Coin {
    pub denom: String,
    pub amount: u128,
}

/// The payment forwarded to the admin once a name is registered.
#[derive(Clone, Debug, PartialEq, Eq)]
pub enum PaymentMsg {
    /// Send `amount` of the native token `denom` to `to_address`.
    BankSend { to_address: String, denom: String, amount: u128 },
    /// Ask the cw20 contract `contract_addr` to transfer `amount` to `recipient`.
    Cw20Transfer { contract_addr: String, recipient: String, amount: u128 },
}

/// The registry: its configuration, the two tables of registered names
/// and the reserved names.
#[derive(Debug)]
pub struct Registry {
    pub config: Config,
    pub name_to_dao: StrMap<String>,
    pub dao_to_name: StrMap<String>,
    pub reserved: StrMap<bool>,
}

/// The error that validating `p` gives, if any; `is_cw20` tells whether
/// a cw20 token address answered as a cw20 contract.
pub open spec fn payment_error(p: PaymentInfo, is_cw20: bool) -> Option<ContractError> {
    if p.amount() == 0 {
        Some(ContractError::InvalidPaymentAmount {})
    } else if p is Cw20Payment && !is_cw20 {
        Some(ContractError::InvalidCw20 {})
    } else {
        None
    }
}

/// Checks that a payment is of a positive amount and that a cw20
/// payment names a cw20 contract.
pub fn validate_payment_info(payment_info: &PaymentInfo, is_cw20: bool) -> (r: Result<(), ContractError>)
    ensures
        match payment_error(*payment_info, is_cw20) {
            Some(e) => r == Err::<(), ContractError>(e),
            None => r is Ok,
        },
{
    match payment_info {
        PaymentInfo::Cw20Payment { payment_amount, .. } => {
            if *payment_amount == 0 {
                return Err(ContractError::InvalidPaymentAmount {});
            }
            if !is_cw20 {
                return Err(ContractError::InvalidCw20 {});
            }
        },
        PaymentInfo::NativePayment { payment_amount, .. } => {
            if *payment_amount == 0 {
                return Err(ContractError::InvalidPaymentAmount {});
            }
        },
    }
    Ok(())
}

impl Registry {
    /// `name` is registered to `dao`.
    pub open spec fn registered(&self, name: Seq<char>, dao: Seq<char>) -> bool {
        self.name_to_dao.get_spec(name) matches Some(d) && d@ == dao
    }

    /// `dao` has registered `name`.
    pub open spec fn named(&self, dao: Seq<char>, name: Seq<char>) -> bool {
        self.dao_to_name.get_spec(dao) matches Some(n) && n@ == name
    }

    pub open spec fn is_reserved(&self, name: Seq<char>) -> bool {
        self.reserved.get_spec(name) is Some
    }

    pub open spec fn is_taken(&self, name: Seq<char>) -> bool {
        self.name_to_dao.get_spec(name) is Some
    }

    pub open spec fn has_name(&self, dao: Seq<char>) -> bool {
        self.dao_to_name.get_spec(dao) is Some
    }

    /// The two tables mirror each other, and no reserved name is
    /// registered.
    pub open spec fn wf(&self) -> bool {
        &&& forall|n: Seq<char>, d: Seq<char>|
            #![trigger self.registered(n, d)]
            #![trigger self.named(d, n)]
            self.registered(n, d) <==> self.named(d, n)
        &&& forall|n: Seq<char>| #[trigger] self.is_reserved(n) ==> !self.is_taken(n)
    }

    /// A registry with no names, after checking the payment configuration.
    pub fn instantiate(admin: String, payment_info: PaymentInfo, is_cw20: bool) -> (r: Result<Registry, ContractError>)
        ensures
            match payment_error(payment_info, is_cw20) {
                Some(e) => r == Err::<Registry, ContractError>(e),
                None => r matches Ok(reg) && reg.wf() && reg.config.admin == admin
                    && reg.config.payment_info == payment_info && forall|n: Seq<char>|
                    !#[trigger] reg.is_taken(n) && !reg.is_reserved(n) && !reg.has_name(n),
            },
    {
        validate_payment_info(&payment_info, is_cw20)?;
        let reg = Registry {
            config: Config { admin, payment_info },
            name_to_dao: StrMap::new(),
            dao_to_name: StrMap::new(),
            reserved: StrMap::new(),
        };
        proof {
            assert forall|n: Seq<char>, d: Seq<char>|
                #![trigger reg.registered(n, d)]
                #![trigger reg.named(d, n)]
                reg.registered(n, d) <==> reg.named(d, n) by {
                assert(reg.name_to_dao.get_spec(n) is None);
                assert(reg.dao_to_name.get_spec(d) is None);
            }
            assert forall|n: Seq<char>| !#[trigger] reg.is_taken(n) && !reg.is_reserved(n) && !reg.has_name(n) by {
                assert(reg.name_to_dao.get_spec(n) is None);
                assert(reg.dao_to_name.get_spec(n) is None);
                assert(reg.reserved.get_spec(n) is None);
            }
        }
        Ok(reg)
    }

    /// The error that registering `name` for `sender` with `amount_sent`
    /// gives, when the fee is `fee`.
    pub open spec fn register_error(&self, sender: Seq<char>, amount_sent: u128, name: Seq<char>, fee: u128) -> Option<ContractError> {
        if amount_sent != fee {
            Some(ContractError::IncorrectPaymentAmount {})
        } else if self.is_reserved(name) {
            Some(ContractError::NameReserved {})
        } else if self.is_taken(name) {
            Some(ContractError::NameAlreadyTaken {})
        } else if self.has_name(sender) {
            Some(ContractError::AlreadyRegisteredName {})
        } else {
            None
        }
    }

    /// The payment that forwards `amount` of the configured token to the admin.
    pub open spec fn payment_to_admin(&self, amount: u128) -> PaymentMsg {
        match self.config.payment_info {
            PaymentInfo::NativePayment { token_denom, .. } => PaymentMsg::BankSend {
                to_address: self.config.admin,
                denom: token_denom,
                amount,
            },
            PaymentInfo::Cw20Payment { token_address, .. } => PaymentMsg::Cw20Transfer {
                contract_addr: token_address,
                recipient: self.config.admin,
                amount,
            },
        }
    }

    /// The registry after `name` is registered to `dao`.
    pub open spec fn after_register(&self, new: Registry, name: Seq<char>, dao: Seq<char>) -> bool {
        &&& new.config == self.config
        &&& new.reserved == self.reserved
        &&& forall|n: Seq<char>| #[trigger]
            new.name_to_dao.get_spec(n) == if n == name {
                new.name_to_dao.get_spec(name)
            } else {
                self.name_to_dao.get_spec(n)
            }
        &&& forall|d: Seq<char>| #[trigger]
            new.dao_to_name.get_spec(d) == if d == dao {
                new.dao_to_name.get_spec(dao)
            } else {
                self.dao_to_name.get_spec(d)
            }
        &&& new.registered(name, dao)
        &&& new.named(dao, name)
    }

    /// `new` is this registry with `name`, registered to `dao`, revoked.
    pub open spec fn after_revoke(&self, new: Registry, name: Seq<char>, dao: Seq<char>) -> bool {
        &&& new.config == self.config
        &&& new.reserved == self.reserved
        &&& forall|n: Seq<char>| #[trigger]
            new.name_to_dao.get_spec(n) == if n == name {
                None
            } else {
                self.name_to_dao.get_spec(n)
            }
        &&& forall|d: Seq<char>| #[trigger]
            new.dao_to_name.get_spec(d) == if d == dao {
                None
            } else {
                self.dao_to_name.get_spec(d)
            }
    }

    /// Registers `name` to `sender`, who sent `amount_sent` while the fee
    /// is `fee`, and gives the payment that forwards the fee to the admin.
    pub fn register_name(&mut self, sender: String, amount_sent: u128, name: String, fee: u128) -> (r: Result<PaymentMsg, ContractError>)
        requires
            old(self).wf(),
        ensures
            final(self).wf(),
            match old(self).register_error(sender@, amount_sent, name@, fee) {
                Some(e) => r == Err::<PaymentMsg, ContractError>(e) && *final(self) == *old(self),
                None => r == Ok::<PaymentMsg, ContractError>(old(self).payment_to_admin(amount_sent))
                    && old(self).after_register(*final(self), name@, sender@),
            },
    {
        if amount_sent != fee {
            return Err(ContractError::IncorrectPaymentAmount {});
        }
        if self.reserved.contains(&name) {
            return Err(ContractError::NameReserved {});
        }
        if self.name_to_dao.contains(&name) {
            return Err(ContractError::NameAlreadyTaken {});
        }
        if self.dao_to_name.contains(&sender) {
            return Err(ContractError::AlreadyRegisteredName {});
        }
        let ghost pre = *self;
        self.name_to_dao.insert(name.clone(), sender.clone());
        self.dao_to_name.insert(sender.clone(), name.clone());
        proof {
            self.lemma_link_keeps_wf(pre, name@, sender@);
        }
        let msg = match &self.config.payment_info {
            PaymentInfo::NativePayment { token_denom, .. } => PaymentMsg::BankSend {
                to_address: self.config.admin.clone(),
                denom: token_denom.clone(),
                amount: amount_sent,
            },
            PaymentInfo::Cw20Payment { token_address, .. } => PaymentMsg::Cw20Transfer {
                contract_addr: token_address.clone(),
                recipient: self.config.admin.clone(),
                amount: amount_sent,
            },
        };
        Ok(msg)
    }

    /// Linking a free name to a DAO without a name keeps the tables
    /// mirrored; if the name was reserved it must be unreserved too,
    /// which the caller states through `new.reserved`.
    proof fn lemma_link_keeps_wf(&self, pre: Registry, name: Seq<char>, dao: Seq<char>)
        requires
            pre.wf(),
            !pre.is_taken(name),
            !pre.has_name(dao),
            forall|n: Seq<char>| #[trigger]
                self.name_to_dao.get_spec(n) == if n == name {
                    self.name_to_dao.get_spec(name)
                } else {
                    pre.name_to_dao.get_spec(n)
                },
            forall|d: Seq<char>| #[trigger]
                self.dao_to_name.get_spec(d) == if d == dao {
                    self.dao_to_name.get_spec(dao)
                } else {
                    pre.dao_to_name.get_spec(d)
                },
            self.registered(name, dao),
            self.named(dao, name),
            forall|n: Seq<char>| #[trigger] self.is_reserved(n) ==> pre.is_reserved(n) && n != name,
        ensures
            self.wf(),
    {
        assert forall|n: Seq<char>, d: Seq<char>|
            #![trigger self.registered(n, d)]
            #![trigger self.named(d, n)]
            self.registered(n, d) <==> self.named(d, n) by {
            assert(self.name_to_dao.get_spec(n) == if n == name {
                self.name_to_dao.get_spec(name)
            } else {
                pre.name_to_dao.get_spec(n)
            });
            assert(self.dao_to_name.get_spec(d) == if d == dao {
                self.dao_to_name.get_spec(dao)
            } else {
                pre.dao_to_name.get_spec(d)
            });
            if n != name && d != dao {
                assert(self.registered(n, d) == pre.registered(n, d));
                assert(self.named(d, n) == pre.named(d, n));
            } else if n == name && d != dao {
                assert(!pre.named(d, n)) by {
                    if pre.named(d, n) {
                        assert(pre.registered(n, d));
                    }
                }
            } else if n != name && d == dao {
                assert(!pre.registered(n, d)) by {
                    if pre.registered(n, d) {
                        assert(pre.named(d, n));
                    }
                }
            }
        }
        assert forall|n: Seq<char>| #[trigger] self.is_reserved(n) implies !self.is_taken(n) by {
            assert(pre.is_reserved(n));
            assert(self.name_to_dao.get_spec(n) == pre.name_to_dao.get_spec(n));
        }
    }

    /// Handles tokens sent by the cw20 contract `info_sender` on behalf
    /// of `cw20_sender`, with the attached message as parsed.
    pub fn execute_receive(&mut self, info_sender: String, cw20_sender: String, amount: u128, msg: Result<ReceiveMsg, StdError>) -> (r: Result<PaymentMsg, ContractError>)
        requires
            old(self).wf(),
        ensures
            final(self).wf(),
            match old(self).config.payment_info {
                PaymentInfo::NativePayment { .. } => r == Err::<PaymentMsg, ContractError>(ContractError::Unauthorized {})
                    && *final(self) == *old(self),
                PaymentInfo::Cw20Payment { token_address, payment_amount } => if info_sender@ != token_address@ {
                    r == Err::<PaymentMsg, ContractError>(ContractError::UnrecognisedCw20 {}) && *final(self) == *old(self)
                } else {
                    match msg {
                        Err(e) => r == Err::<PaymentMsg, ContractError>(ContractError::Std(e)) && *final(self) == *old(self),
                        Ok(ReceiveMsg::Register { name }) => match old(self).register_error(cw20_sender@, amount, name@, payment_amount) {
                            Some(e) => r == Err::<PaymentMsg, ContractError>(e) && *final(self) == *old(self),
                            None => r == Ok::<PaymentMsg, ContractError>(old(self).payment_to_admin(amount))
                                && old(self).after_register(*final(self), name@, cw20_sender@),
                        },
                    }
                },
            },
    {
        let fee: u128 = match &self.config.payment_info {
            PaymentInfo::NativePayment { .. } => {
                return Err(ContractError::Unauthorized {});
            },
            PaymentInfo::Cw20Payment { token_address, payment_amount } => {
                if info_sender != *token_address {
                    return Err(ContractError::UnrecognisedCw20 {});
                }
                *payment_amount
            },
        };
        match msg {
            Err(e) => Err(ContractError::Std(e)),
            Ok(ReceiveMsg::Register { name }) => self.register_name(cw20_sender, amount, name, fee),
        }
    }

    /// Registers `name` for `sender`, paid with the native funds sent
    /// along: the first coin of the configured denomination counts.
    pub fn execute_register_name_native(&mut self, sender: String, funds: &Vec<Coin>, name: String) -> (r: Result<PaymentMsg, ContractError>)
        requires
            old(self).wf(),
        ensures
            final(self).wf(),
            match old(self).config.payment_info {
                PaymentInfo::Cw20Payment { .. } => r == Err::<PaymentMsg, ContractError>(ContractError::InvalidPayment {})
                    && *final(self) == *old(self),
                PaymentInfo::NativePayment { token_denom, payment_amount } => match first_coin_of(funds@, token_denom@) {
                    None => r == Err::<PaymentMsg, ContractError>(ContractError::UnrecognisedNativeToken {})
                        && *final(self) == *old(self),
                    Some(i) => match old(self).register_error(sender@, funds@[i].amount, name@, payment_amount) {
                        Some(e) => r == Err::<PaymentMsg, ContractError>(e) && *final(self) == *old(self),
                        None => r == Ok::<PaymentMsg, ContractError>(old(self).payment_to_admin(funds@[i].amount))
                            && old(self).after_register(*final(self), name@, sender@),
                    },
                },
            },
    {
        let (fee, amount) = match &self.config.payment_info {
            PaymentInfo::Cw20Payment { .. } => {
                return Err(ContractError::InvalidPayment {});
            },
            PaymentInfo::NativePayment { token_denom, payment_amount } => {
                match find_coin(funds, token_denom) {
                    None => {
                        return Err(ContractError::UnrecognisedNativeToken {});
                    },
                    Some(i) => (*payment_amount, funds[i].amount),
                }
            },
        };
        self.register_name(sender, amount, name, fee)
    }

    /// Replaces the admin and the payment configuration, each only where
    /// a new one is given. Only the admin may do this; `is_cw20` tells
    /// whether the token of the payment configuration that would result
    /// answered as a cw20 contract.
    pub fn execute_update_config(&mut self, sender: String, new_admin: Option<String>, new_payment_info: Option<PaymentInfo>, is_cw20: bool) -> (r: Result<(), ContractError>)
        requires
            old(self).wf(),
        ensures
            final(self).wf(),
            ({
                let admin = match new_admin {
                    Some(a) => a,
                    None => old(self).config.admin,
                };
                let payment = match new_payment_info {
                    Some(p) => p,
                    None => old(self).config.payment_info,
                };
                if sender@ != old(self).config.admin@ {
                    r == Err::<(), ContractError>(ContractError::Unauthorized {}) && *final(self) == *old(self)
                } else {
                    match payment_error(payment, is_cw20) {
                        Some(e) => r == Err::<(), ContractError>(e) && *final(self) == *old(self),
                        None => r is Ok && final(self).config == (Config { admin, payment_info: payment })
                            && final(self).name_to_dao == old(self).name_to_dao
                            && final(self).dao_to_name == old(self).dao_to_name
                            && final(self).reserved == old(self).reserved,
                    }
                }
            }),
    {
        if sender != self.config.admin {
            return Err(ContractError::Unauthorized {});
        }
        let payment = match new_payment_info {
            Some(p) => p,
            None => self.config.payment_info.duplicate(),
        };
        let admin = match new_admin {
            Some(a) => a,
            None => self.config.admin.clone(),
        };
        validate_payment_info(&payment, is_cw20)?;
        let ghost pre = *self;
        self.config = Config { admin, payment_info: payment };
        proof {
            assert forall|n: Seq<char>, d: Seq<char>|
                #![trigger self.registered(n, d)]
                #![trigger self.named(d, n)]
                self.registered(n, d) <==> self.named(d, n) by {
                assert(self.registered(n, d) == pre.registered(n, d));
                assert(self.named(d, n) == pre.named(d, n));
            }
            assert forall|n: Seq<char>| #[trigger] self.is_reserved(n) implies !self.is_taken(n) by {
                assert(pre.is_reserved(n));
            }
        }
        Ok(())
    }

    /// Revokes `name`. Only the DAO that holds it and the admin may.
    pub fn execute_revoke(&mut self, sender: String, name: String) -> (r: Result<(), ContractError>)
        requires
            old(self).wf(),
        ensures
            final(self).wf(),
            match old(self).name_to_dao.get_spec(name@) {
                None => r == Err::<(), ContractError>(ContractError::NameNotRegistered {}) && *final(self) == *old(self),
                Some(dao) => if sender@ != dao@ && sender@ != old(self).config.admin@ {
                    r == Err::<(), ContractError>(ContractError::Unauthorized {}) && *final(self) == *old(self)
                } else {
                    r is Ok && old(self).after_revoke(*final(self), name@, dao@)
                },
            },
    {
        let dao = match self.name_to_dao.get(&name) {
            None => {
                return Err(ContractError::NameNotRegistered {});
            },
            Some(d) => d,
        };
        if sender != dao && sender != self.config.admin {
            return Err(ContractError::Unauthorized {});
        }
        let ghost pre = *self;
        self.name_to_dao.remove(&name);
        self.dao_to_name.remove(&dao);
        proof {
            assert(pre.registered(name@, dao@));
            assert(pre.named(dao@, name@));
            assert forall|n: Seq<char>, d: Seq<char>|
                #![trigger self.registered(n, d)]
                #![trigger self.named(d, n)]
                self.registered(n, d) <==> self.named(d, n) by {
                if n != name@ && d != dao@ {
                    assert(self.registered(n, d) == pre.registered(n, d));
                    assert(self.named(d, n) == pre.named(d, n));
                } else if n == name@ && d != dao@ {
                    assert(!self.registered(n, d));
                    assert(!pre.named(d, n)) by {
                        if pre.named(d, n) {
                            assert(pre.registered(n, d));
                        }
                    }
                } else if n != name@ && d == dao@ {
                    assert(!self.named(d, n));
                    assert(!pre.registered(n, d)) by {
                        if pre.registered(n, d) {
                            assert(pre.named(d, n));
                        }
                    }
                }
            }
            assert forall|n: Seq<char>| #[trigger] self.is_reserved(n) implies !self.is_taken(n) by {
                assert(pre.is_reserved(n));
            }
        }
        Ok(())
    }

    /// Reserves `name` so that no DAO can register it. Only the admin may.
    pub fn execute_reserve(&mut self, sender: String, name: String) -> (r: Result<(), ContractError>)
        requires
            old(self).wf(),
        ensures
            final(self).wf(),
            if sender@ != old(self).config.admin@ {
                r == Err::<(), ContractError>(ContractError::Unauthorized {}) && *final(self) == *old(self)
            } else if old(self).is_taken(name@) {
                r == Err::<(), ContractError>(ContractError::NameAlreadyTaken {}) && *final(self) == *old(self)
            } else if old(self).is_reserved(name@) {
                r == Err::<(), ContractError>(ContractError::NameReserved {}) && *final(self) == *old(self)
            } else {
                &&& r is Ok
                &&& final(self).config == old(self).config
                &&& final(self).name_to_dao == old(self).name_to_dao
                &&& final(self).dao_to_name == old(self).dao_to_name
                &&& forall|n: Seq<char>| #[trigger]
                    final(self).is_reserved(n) == (n == name@ || old(self).is_reserved(n))
            },
    {
        if sender != self.config.admin {
            return Err(ContractError::Unauthorized {});
        }
        if self.name_to_dao.contains(&name) {
            return Err(ContractError::NameAlreadyTaken {});
        }
        if self.reserved.contains(&name) {
            return Err(ContractError::NameReserved {});
        }
        let ghost pre = *self;
        self.reserved.insert(name, true);
        proof {
            assert forall|n: Seq<char>, d: Seq<char>|
                #![trigger self.registered(n, d)]
                #![trigger self.named(d, n)]
                self.registered(n, d) <==> self.named(d, n) by {
                assert(self.registered(n, d) == pre.registered(n, d));
                assert(self.named(d, n) == pre.named(d, n));
            }
            assert forall|n: Seq<char>| #[trigger] self.is_reserved(n) implies !self.is_taken(n) by {
                if n != name@ {
                    assert(pre.is_reserved(n));
                }
            }
        }
        Ok(())
    }

    /// Hands the reserved name `name` to `dao`. Only the admin may.
    pub fn execute_transfer_reservation(&mut self, sender: String, name: String, dao: String) -> (r: Result<(), ContractError>)
        requires
            old(self).wf(),
        ensures
            final(self).wf(),
            if sender@ != old(self).config.admin@ {
                r == Err::<(), ContractError>(ContractError::Unauthorized {}) && *final(self) == *old(self)
            } else if old(self).has_name(dao@) {
                r == Err::<(), ContractError>(ContractError::AlreadyRegisteredName {}) && *final(self) == *old(self)
            } else if !old(self).is_reserved(name@) {
                r == Err::<(), ContractError>(ContractError::NameNotReserved {}) && *final(self) == *old(self)
            } else {
                &&& r is Ok
                &&& final(self).config == old(self).config
                &&& forall|n: Seq<char>| #[trigger]
                    final(self).is_reserved(n) == (n != name@ && old(self).is_reserved(n))
                &&& forall|n: Seq<char>| #[trigger]
                    final(self).name_to_dao.get_spec(n) == if n == name@ {
                        final(self).name_to_dao.get_spec(name@)
                    } else {
                        old(self).name_to_dao.get_spec(n)
                    }
                &&& forall|d: Seq<char>| #[trigger]
                    final(self).dao_to_name.get_spec(d) == if d == dao@ {
                        final(self).dao_to_name.get_spec(dao@)
                    } else {
                        old(self).dao_to_name.get_spec(d)
                    }
                &&& final(self).registered(name@, dao@)
                &&& final(self).named(dao@, name@)
            },
    {
        if sender != self.config.admin {
            return Err(ContractError::Unauthorized {});
        }
        if self.dao_to_name.contains(&dao) {
            return Err(ContractError::AlreadyRegisteredName {});
        }
        if !self.reserved.contains(&name) {
            return Err(ContractError::NameNotReserved {});
        }
        let ghost pre = *self;
        self.dao_to_name.insert(dao.clone(), name.clone());
        self.name_to_dao.insert(name.clone(), dao.clone());
        self.reserved.remove(&name);
        proof {
            assert(pre.is_reserved(name@));
            self.lemma_link_keeps_wf(pre, name@, dao@);
        }
        Ok(())
    }

    /// The name `dao` registered, if any.
    pub fn query_look_up_name_by_dao(&self, dao: &String) -> (r: LookUpDaoResponse)
        ensures
            r.name == self.dao_to_name.get_spec(dao@),
    {
        LookUpDaoResponse { name: self.dao_to_name.get(dao) }
    }

    /// The DAO `name` is registered to, if any.
    pub fn query_look_up_dao_by_name(&self, name: &String) -> (r: LookUpNameResponse)
        ensures
            r.dao == self.name_to_dao.get_spec(name@),
    {
        LookUpNameResponse { dao: self.name_to_dao.get(name) }
    }

    /// Whether `name` is registered and whether it is reserved.
    pub fn query_is_name_available_to_register(&self, name: &String) -> (r: IsNameAvailableToRegisterResponse)
        ensures
            r.taken == self.is_taken(name@),
            r.reserved == self.is_reserved(name@),
    {
        let reserved = self.reserved.contains(name);
        let taken = self.name_to_dao.contains(name);
        IsNameAvailableToRegisterResponse { taken, reserved }
    }

    /// The configuration.
    pub fn query_config(&self) -> (r: Config)
        ensures
            r == self.config,
    {
        self.config.duplicate()
    }
}

/// The position of the first coin of denomination `denom`, if any.
pub open spec fn first_coin_of(funds: Seq<Coin>, denom: Seq<char>) -> Option<int> {
    if exists|i: int| 0 <= i < funds.len() && #[trigger] funds[i].denom@ == denom {
        Some(choose|i: int| 0 <= i < funds.len() && funds[i].denom@ == denom && forall|j: int|
            0 <= j < i ==> #[trigger] funds[j].denom@ != denom)
    } else {
        None
    }
}

/// The position of the first coin of denomination `denom`, if any.
pub fn find_coin(funds: &Vec<Coin>, denom: &String) -> (r: Option<usize>)
    ensures
        r matches Some(i) ==> first_coin_of(funds@, denom@) == Some(i as int),
        r is None ==> first_coin_of(funds@, denom@) is None,
        r matches Some(i) ==> i < funds@.len() && funds@[i as int].denom@ == denom@,
{
    let mut i: usize = 0;
    while i < funds.len()
        invariant
            i <= funds@.len(),
            forall|j: int| 0 <= j < i ==> #[trigger] funds@[j].denom@ != denom@,
        decreases funds.len() - i,
    {
        if funds[i].denom == *denom {
            proof {
                let w = choose|k: int| 0 <= k < funds@.len() && funds@[k].denom@ == denom@ && forall|j: int|
                    0 <= j < k ==> #[trigger] funds@[j].denom@ != denom@;
                assert(0 <= i < funds@.len() && funds@[i as int].denom@ == denom@ && forall|j: int|
                    0 <= j < i ==> #[trigger] funds@[j].denom@ != denom@);
                if w < i {
                    assert(funds@[w].denom@ != denom@);
                } else if w > i {
                    assert(funds@[i as int].denom@ != denom@);
                }
            }
            return Some(i);
        }
        i = i + 1;
    }
    None
}

/// A DAO holds at most one name: two names registered to the same DAO
/// are the same name.
pub proof fn law_dao_has_one_name(reg: Registry, dao: Seq<char>, n1: Seq<char>, n2: Seq<char>)
    requires
        reg.wf(),
        reg.registered(n1, dao),
        reg.registered(n2, dao),
    ensures
        n1 == n2,
{
    assert(reg.named(dao, n1));
    assert(reg.named(dao, n2));
}

/// A reserved name can not be registered, whatever is paid for it.
pub proof fn law_reserved_name_refused(reg: Registry, sender: Seq<char>, name: Seq<char>, fee: u128)
    requires
        reg.wf(),
        reg.is_reserved(name),
    ensures
        reg.register_error(sender, fee, name, fee) == Some(ContractError::NameReserved {}),
{
}

/// Once a name is registered to a DAO, looking up the name gives the
/// DAO and looking up the DAO gives the name.
pub proof fn law_lookup_after_register(before: Registry, after: Registry, name: Seq<char>, dao: Seq<char>)
    requires
        before.after_register(after, name, dao),
    ensures
        after.name_to_dao.get_spec(name) matches Some(d) && d@ == dao,
        after.dao_to_name.get_spec(dao) matches Some(n) && n@ == name,
{
}

/// Revoking a name just registered by a DAO that had none gives back
/// the registry as it was before the registration.
pub proof fn law_revoke_undoes_register(before: Registry, mid: Registry, after: Registry, name: Seq<char>, dao: Seq<char>)
    requires
        !before.is_taken(name),
        !before.has_name(dao),
        before.after_register(mid, name, dao),
        mid.after_revoke(after, name, dao),
    ensures
        after.config == before.config,
        after.reserved == before.reserved,
        forall|n: Seq<char>| #[trigger] after.name_to_dao.get_spec(n) == before.name_to_dao.get_spec(n),
        forall|d: Seq<char>| #[trigger] after.dao_to_name.get_spec(d) == before.dao_to_name.get_spec(d),
{
    assert forall|n: Seq<char>| #[trigger] after.name_to_dao.get_spec(n) == before.name_to_dao.get_spec(n) by {
        if n != name {
            assert(mid.name_to_dao.get_spec(n) == before.name_to_dao.get_spec(n));
        }
    }
    assert forall|d: Seq<char>| #[trigger] after.dao_to_name.get_spec(d) == before.dao_to_name.get_spec(d) by {
        if d != dao {
            assert(mid.dao_to_name.get_spec(d) == before.dao_to_name.get_spec(d));
        }
    }
}

} // verus!
