//! The DAO core: it holds the DAO's configuration, its voting module
//! and its governance modules, executes the messages of passed
//! proposals on behalf of a governance module, and changes its own
//! modules when the DAO itself asks. It always keeps at least one
//! governance module.
//!
//! Modules are created by instantiation sub-messages; the addresses
//! of the new contracts come back in replies.
use crate::reply::{parse_reply_instantiate_data, reply_address, ReplyError};
use crate::std_error::StdError;
use crate::table::{opt_string, StrMap};
use crate::voting::ContractVersion;
use vstd::prelude::*;

verus! {

/// The reply to the instantiation of a governance module.
pub const GOV_MODULE_REPLY_ID: u64 = 0;
/// The reply to the instantiation of the first voting module.
pub const VOTE_MODULE_INSTANTIATE_REPLY_ID: u64 = 1;
/// The reply to the instantiation of a replacement voting module.
pub const VOTE_MODULE_UPDATE_REPLY_ID: u64 = 2;

/// The DAO's configuration.
#[derive(Debug)]
pub struct Config {
    pub name: String,
    pub description: String,
    pub image_url: Option<String>,
}

impl Config {
    pub fn duplicate(&self) -> (r: Config)
        ensures
            r == *self,
    {
        Config {
            name: self.name.clone(),
            description: self.description.clone(),
            image_url: match &self.image_url {
                Some(u) => Some(u.clone()),
                None => None,
            },
        }
    }
}

/// Who administers a module the DAO creates.
#[derive(Clone, Debug, PartialEq, Eq)]
pub enum Admin {
    /// A specific address.
    Address { addr: String },
    /// The DAO core itself, filled in when the module is created.
    GovernanceContract {},
    /// Nobody.
    NoAdmin {},
}

/// What is needed to create a module.
#[derive(Debug, PartialEq, Eq)]
pub struct ModuleInstantiateInfo {
    pub code_id: u64,
    /// The instantiation message, serialized.
    pub msg: Vec<u8>,
    pub admin: Admin,
    pub label: String,
}

/// A message that creates a contract.
#[derive(Debug, PartialEq, Eq)]
pub struct WasmInstantiate {
    pub admin: Option<String>,
    pub code_id: u64,
    pub msg: Vec<u8>,
    pub label: String,
}

/// A sub-message whose success is answered by a reply with this id.
#[derive(Debug, PartialEq, Eq)]
pub struct SubMsg {
    pub reply_id: u64,
    pub msg: WasmInstantiate,
}

/// The admin a module gets when created by the contract at `contract`.
pub open spec fn admin_of(admin: Admin, contract: String) -> Option<String> {
    match admin {
        Admin::Address { addr } => Some(addr),
        Admin::GovernanceContract {} => Some(contract),
        Admin::NoAdmin {} => None,
    }
}

/// The message that creates the module, sent by the contract at
/// `contract`.
pub open spec fn wasm_of(info: ModuleInstantiateInfo, contract: String) -> WasmInstantiate {
    WasmInstantiate {
        admin: admin_of(info.admin, contract),
        code_id: info.code_id,
        msg: info.msg,
        label: info.label,
    }
}

impl ModuleInstantiateInfo {
    /// The message that creates the module, sent by the contract at
    /// `contract`.
    pub fn into_wasm_msg(self, contract: String) -> (r: WasmInstantiate)
        ensures
            r == wasm_of(self, contract),
    {
        let admin = match self.admin {
            Admin::Address { addr } => Some(addr),
            Admin::GovernanceContract {} => Some(contract),
            Admin::NoAdmin {} => None,
        };
        WasmInstantiate { admin, code_id: self.code_id, msg: self.msg, label: self.label }
    }
}

/// The sub-messages that create each module, answered by replies with
/// id `reply_id`.
pub open spec fn submsgs_of(infos: Seq<ModuleInstantiateInfo>, contract: String, reply_id: u64) -> Seq<SubMsg> {
    Seq::new(infos.len(), |i: int| SubMsg { reply_id, msg: wasm_of(infos[i], contract) })
}

/// The sub-messages that create each module, answered by replies with
/// id `reply_id`.
pub fn into_submsgs(infos: Vec<ModuleInstantiateInfo>, contract: &String, reply_id: u64) -> (r: Vec<SubMsg>)
    ensures
        r@ == submsgs_of(infos@, *contract, reply_id),
{
    let ghost orig = infos@;
    let mut rest = infos;
    let mut out: Vec<SubMsg> = Vec::new();
    while rest.len() > 0
        invariant
            out@.len() + rest@.len() == orig.len(),
            rest@ == orig.subrange(out@.len() as int, orig.len() as int),
            out@ == submsgs_of(orig, *contract, reply_id).subrange(0, out@.len() as int),
        decreases rest@.len(),
    {
        let ghost k: int = out@.len() as int;
        let info = rest.remove(0);
        proof {
            assert(info == orig[k]);
            assert(rest@ =~= orig.subrange(k + 1, orig.len() as int));
        }
        out.push(SubMsg { reply_id, msg: info.into_wasm_msg(contract.clone()) });
        proof {
            assert(out@ =~= submsgs_of(orig, *contract, reply_id).subrange(0, k + 1));
        }
    }
    proof {
        assert(submsgs_of(orig, *contract, reply_id).subrange(0, out@.len() as int) =~= submsgs_of(orig, *contract, reply_id));
    }
    out
}

/// Why the DAO core refuses a message.
#[derive(Clone, Copy, Debug, PartialEq, Eq, Structural)]
pub enum ContractError {
    Std(StdError),
    Reply(ReplyError),
    Unauthorized {},
    /// The DAO would be left without a governance module.
    NoGovernanceModule {},
    Overflow {},
    /// A second voting module was instantiated.
    MultipleVotingModules {},
    UnknownReplyID {},
}

/// The DAO core's creation message.
#[derive(Debug)]
pub struct InstantiateMsg {
    pub name: String,
    pub description: String,
    pub image_url: Option<String>,
    pub voting_module_instantiate_info: ModuleInstantiateInfo,
    pub governance_modules_instantiate_info: Vec<ModuleInstantiateInfo>,
}

/// What the DAO core can be asked to do.
#[derive(Debug)]
pub enum ExecuteMsg {
    /// From a governance module: execute these messages in order.
    ExecuteProposalHook { msgs: Vec<String> },
    /// From the DAO itself: replace the configuration.
    UpdateConfig { config: Config },
    /// From the DAO itself: replace the voting module by a new one.
    UpdateVotingModule { module: ModuleInstantiateInfo },
    /// From the DAO itself: create the modules of `to_add` and remove the
    /// addresses of `to_remove`.
    UpdateGovernanceModules { to_add: Vec<ModuleInstantiateInfo>, to_remove: Vec<String> },
}

/// What a handled message asks the chain to do next.
#[derive(Debug)]
pub enum ExecuteResponse {
    /// Execute these messages.
    Messages(Vec<String>),
    /// Send these sub-messages.
    SubMessages(Vec<SubMsg>),
    /// Nothing.
    Nothing,
}

/// All of the DAO core's state.
#[derive(Debug)]
pub struct DumpStateResponse {
    pub config: Config,
    pub version: ContractVersion,
    pub governance_modules: Vec<String>,
    pub voting_module: String,
}

/// The DAO core's state.
#[derive(Debug)]
pub struct Governance {
    pub config: Config,
    pub voting_module: Option<String>,
    /// The governance modules' addresses.
    pub governance_modules: StrMap<bool>,
    /// The number of governance modules, kept apart so that changing
    /// them never walks the table.
    pub module_count: u64,
}

impl Governance {
    /// The DAO always counts at least one governance module.
    pub open spec fn wf(&self) -> bool {
        self.module_count > 0
    }

    pub open spec fn is_module(&self, addr: Seq<char>) -> bool {
        self.governance_modules.get_spec(addr) is Some
    }

    /// Creates the DAO core at `contract`, with the sub-messages that
    /// create its voting module and then its governance modules.
    pub fn instantiate(msg: InstantiateMsg, contract: String) -> (r: Result<(Governance, Vec<SubMsg>), ContractError>)
        ensures
            msg.governance_modules_instantiate_info@.len() == 0 ==> r == Err::<(Governance, Vec<SubMsg>), ContractError>(
                ContractError::NoGovernanceModule {},
            ),
            msg.governance_modules_instantiate_info@.len() > 0 ==> (r matches Ok((g, subs)) && g.wf()
                && g.config == (Config { name: msg.name, description: msg.description, image_url: msg.image_url })
                && g.voting_module is None && g.governance_modules.entries@.len() == 0
                && g.module_count == msg.governance_modules_instantiate_info@.len()
                && subs@ == seq![SubMsg { reply_id: VOTE_MODULE_INSTANTIATE_REPLY_ID, msg: wasm_of(msg.voting_module_instantiate_info, contract) }]
                    + submsgs_of(msg.governance_modules_instantiate_info@, contract, GOV_MODULE_REPLY_ID)),
    {
        let config = Config { name: msg.name, description: msg.description, image_url: msg.image_url };
        let vote_msg = SubMsg {
            reply_id: VOTE_MODULE_INSTANTIATE_REPLY_ID,
            msg: msg.voting_module_instantiate_info.into_wasm_msg(contract.clone()),
        };
        let gov_msgs = into_submsgs(msg.governance_modules_instantiate_info, &contract, GOV_MODULE_REPLY_ID);
        if gov_msgs.len() == 0 {
            return Err(ContractError::NoGovernanceModule {});
        }
        let count = gov_msgs.len() as u64;
        let mut subs: Vec<SubMsg> = Vec::new();
        subs.push(vote_msg);
        let ghost first = subs@;
        let mut rest = gov_msgs;
        let ghost gm = rest@;
        while rest.len() > 0
            invariant
                subs@ + rest@ == first + gm,
            decreases rest@.len(),
        {
            let ghost before = subs@;
            let ghost before_rest = rest@;
            let m = rest.remove(0);
            subs.push(m);
            proof {
                assert(before_rest =~= seq![m] + rest@);
                assert(subs@ + rest@ =~= before + before_rest);
            }
        }
        proof {
            assert(subs@ =~= subs@ + rest@);
        }
        Ok((Governance { config, voting_module: None, governance_modules: StrMap::new(), module_count: count }, subs))
    }

    /// Handles `msg` from `sender`; the DAO core stands at `contract`.
    /// Proposal hooks are only taken from governance modules, the other
    /// messages only from the DAO core itself.
    pub fn execute(&mut self, sender: String, contract: String, msg: ExecuteMsg) -> (r: Result<ExecuteResponse, ContractError>)
        requires
            old(self).wf(),
        ensures
            final(self).wf(),
            match msg {
                ExecuteMsg::ExecuteProposalHook { msgs } => if !old(self).is_module(sender@) {
                    r == Err::<ExecuteResponse, ContractError>(ContractError::Unauthorized {}) && *final(self) == *old(self)
                } else {
                    r == Ok::<ExecuteResponse, ContractError>(ExecuteResponse::Messages(msgs)) && *final(self) == *old(self)
                },
                ExecuteMsg::UpdateConfig { config } => if sender@ != contract@ {
                    r == Err::<ExecuteResponse, ContractError>(ContractError::Unauthorized {}) && *final(self) == *old(self)
                } else {
                    r == Ok::<ExecuteResponse, ContractError>(ExecuteResponse::Nothing)
                        && *final(self) == (Governance { config, ..*old(self) })
                },
                ExecuteMsg::UpdateVotingModule { module } => if sender@ != contract@ {
                    r == Err::<ExecuteResponse, ContractError>(ContractError::Unauthorized {}) && *final(self) == *old(self)
                } else {
                    (r matches Ok(ExecuteResponse::SubMessages(v)) && v@ == seq![SubMsg { reply_id: VOTE_MODULE_UPDATE_REPLY_ID, msg: wasm_of(module, contract) }])
                        && *final(self) == *old(self)
                },
                ExecuteMsg::UpdateGovernanceModules { to_add, to_remove } => if sender@ != contract@ {
                    r == Err::<ExecuteResponse, ContractError>(ContractError::Unauthorized {}) && *final(self) == *old(self)
                } else {
                    match old(self).new_module_count(to_add@.len(), to_remove@.len()) {
                        Err(e) => r == Err::<ExecuteResponse, ContractError>(e) && *final(self) == *old(self),
                        Ok(n) => (r matches Ok(ExecuteResponse::SubMessages(v)) && v@ == submsgs_of(to_add@, contract, GOV_MODULE_REPLY_ID))
                            && old(self).modules_updated(*final(self), n, to_remove@),
                    }
                },
            },
    {
        match msg {
            ExecuteMsg::ExecuteProposalHook { msgs } => {
                if !self.governance_modules.contains(&sender) {
                    return Err(ContractError::Unauthorized {});
                }
                Ok(ExecuteResponse::Messages(execute_proposal_hook(msgs)))
            },
            ExecuteMsg::UpdateConfig { config } => {
                if sender != contract {
                    return Err(ContractError::Unauthorized {});
                }
                self.execute_update_config(config);
                Ok(ExecuteResponse::Nothing)
            },
            ExecuteMsg::UpdateVotingModule { module } => {
                if sender != contract {
                    return Err(ContractError::Unauthorized {});
                }
                let sub = execute_update_voting_module(&contract, module);
                let mut v: Vec<SubMsg> = Vec::new();
                v.push(sub);
                Ok(ExecuteResponse::SubMessages(v))
            },
            ExecuteMsg::UpdateGovernanceModules { to_add, to_remove } => {
                if sender != contract {
                    return Err(ContractError::Unauthorized {});
                }
                let subs = self.execute_update_governance_modules(&contract, to_add, to_remove)?;
                Ok(ExecuteResponse::SubMessages(subs))
            },
        }
    }

    /// Replaces the configuration.
    pub fn execute_update_config(&mut self, config: Config)
        ensures
            *final(self) == (Governance { config, ..*old(self) }),
    {
        self.config = config;
    }

    /// The module count after adding `added` and removing `removed`
    /// modules, or the error that gives.
    pub open spec fn new_module_count(&self, added: nat, removed: nat) -> Result<u64, ContractError> {
        if self.module_count + added > u64::MAX {
            Err(ContractError::Overflow {})
        } else if self.module_count + added < removed {
            Err(ContractError::Overflow {})
        } else if self.module_count + added - removed == 0 {
            Err(ContractError::NoGovernanceModule {})
        } else {
            Ok((self.module_count + added - removed) as u64)
        }
    }

    /// `after` counts `count` modules and no longer holds the removed
    /// addresses; everything else is unchanged.
    pub open spec fn modules_updated(&self, after: Governance, count: u64, removed: Seq<String>) -> bool {
        &&& after.module_count == count
        &&& after.config == self.config
        &&& after.voting_module == self.voting_module
        &&& forall|a: Seq<char>| #[trigger]
            after.governance_modules.get_spec(a) == if exists|i: int| 0 <= i < removed.len() && (#[trigger] removed[i])@ == a {
                None
            } else {
                self.governance_modules.get_spec(a)
            }
    }

    /// Counts the modules to add and remove, refusing to leave none,
    /// removes the addresses given, and gives the sub-messages that create
    /// the new modules.
    pub fn execute_update_governance_modules(&mut self, contract: &String, to_add: Vec<ModuleInstantiateInfo>, to_remove: Vec<String>) -> (r: Result<Vec<SubMsg>, ContractError>)
        requires
            old(self).wf(),
        ensures
            final(self).wf(),
            match old(self).new_module_count(to_add@.len(), to_remove@.len()) {
                Err(e) => r == Err::<Vec<SubMsg>, ContractError>(e) && *final(self) == *old(self),
                Ok(n) => (r matches Ok(v) && v@ == submsgs_of(to_add@, *contract, GOV_MODULE_REPLY_ID))
                    && old(self).modules_updated(*final(self), n, to_remove@),
            },
    {
        let added = to_add.len() as u64;
        let removed = to_remove.len() as u64;
        let with_added = match self.module_count.checked_add(added) {
            None => {
                return Err(ContractError::Overflow {});
            },
            Some(v) => v,
        };
        let new_total = match with_added.checked_sub(removed) {
            None => {
                return Err(ContractError::Overflow {});
            },
            Some(v) => v,
        };
        if new_total == 0 {
            return Err(ContractError::NoGovernanceModule {});
        }
        self.module_count = new_total;
        let ghost before = self.governance_modules;
        let ghost pre = *self;
        let mut i: usize = 0;
        while i < to_remove.len()
            invariant
                new_total > 0,
                self.module_count == pre.module_count,
                pre.module_count == new_total,
                self.config == pre.config,
                self.voting_module == pre.voting_module,
                i <= to_remove@.len(),
                forall|a: Seq<char>| #[trigger]
                    self.governance_modules.get_spec(a) == if exists|j: int| 0 <= j < i && (#[trigger] to_remove@[j])@ == a {
                        None
                    } else {
                        before.get_spec(a)
                    },
            decreases to_remove.len() - i,
        {
            let ghost prev = self.governance_modules;
            self.governance_modules.remove(&to_remove[i]);
            proof {
                assert forall|a: Seq<char>| #[trigger]
                    self.governance_modules.get_spec(a) == if exists|j: int| 0 <= j < i + 1 && (#[trigger] to_remove@[j])@ == a {
                        None
                    } else {
                        before.get_spec(a)
                    } by {
                    if a == to_remove@[i as int]@ {
                        assert(exists|j: int| 0 <= j < i + 1 && (#[trigger] to_remove@[j])@ == a);
                    } else {
                        if exists|j: int| 0 <= j < i + 1 && (#[trigger] to_remove@[j])@ == a {
                            let j = choose|j: int| 0 <= j < i + 1 && (#[trigger] to_remove@[j])@ == a;
                            assert(j < i);
                        }
                    }
                }
            }
            i = i + 1;
        }
        Ok(into_submsgs(to_add, contract, GOV_MODULE_REPLY_ID))
    }

    /// Records the address of a module created by a sub-message, from the
    /// sub-message's result (its data on success, its error text on
    /// failure), and gives that address.
    pub fn reply(&mut self, id: u64, result: &Result<Option<Vec<u8>>, String>) -> (r: Result<String, ContractError>)
        requires
            old(self).wf(),
        ensures
            final(self).wf(),
            id != GOV_MODULE_REPLY_ID && id != VOTE_MODULE_INSTANTIATE_REPLY_ID && id != VOTE_MODULE_UPDATE_REPLY_ID
                ==> r == Err::<String, ContractError>(ContractError::UnknownReplyID {}) && *final(self) == *old(self),
            id == GOV_MODULE_REPLY_ID || id == VOTE_MODULE_INSTANTIATE_REPLY_ID || id == VOTE_MODULE_UPDATE_REPLY_ID
                ==> match reply_address(*result) {
                Err(e) => r == Err::<String, ContractError>(ContractError::Reply(e)) && *final(self) == *old(self),
                Ok(a) => if id == GOV_MODULE_REPLY_ID {
                    &&& r matches Ok(s) && s@ == a
                    &&& final(self).config == old(self).config
                    &&& final(self).voting_module == old(self).voting_module
                    &&& final(self).module_count == old(self).module_count
                    &&& forall|m: Seq<char>| #[trigger]
                        final(self).governance_modules.get_spec(m) == if m == a {
                            Some(true)
                        } else {
                            old(self).governance_modules.get_spec(m)
                        }
                } else if id == VOTE_MODULE_INSTANTIATE_REPLY_ID && old(self).voting_module is Some {
                    r == Err::<String, ContractError>(ContractError::MultipleVotingModules {}) && *final(self) == *old(self)
                } else {
                    &&& r matches Ok(s) && s@ == a
                    &&& final(self).voting_module matches Some(v) && v@ == a
                    &&& final(self).config == old(self).config
                    &&& final(self).governance_modules == old(self).governance_modules
                    &&& final(self).module_count == old(self).module_count
                },
            },
    {
        if id != GOV_MODULE_REPLY_ID && id != VOTE_MODULE_INSTANTIATE_REPLY_ID && id != VOTE_MODULE_UPDATE_REPLY_ID {
            return Err(ContractError::UnknownReplyID {});
        }
        let addr = match parse_reply_instantiate_data(result) {
            Err(e) => {
                return Err(ContractError::Reply(e));
            },
            Ok(a) => a,
        };
        if id == GOV_MODULE_REPLY_ID {
            self.governance_modules.insert(addr.clone(), true);
            Ok(addr)
        } else {
            if id == VOTE_MODULE_INSTANTIATE_REPLY_ID && self.voting_module.is_some() {
                return Err(ContractError::MultipleVotingModules {});
            }
            self.voting_module = Some(addr.clone());
            Ok(addr)
        }
    }

    /// The configuration.
    pub fn query_config(&self) -> (r: Config)
        ensures
            r == self.config,
    {
        self.config.duplicate()
    }

    /// The voting module; there is none until its creation was answered.
    pub fn query_voting_module(&self) -> (r: Result<String, StdError>)
        ensures
            match self.voting_module {
                Some(v) => r == Ok::<String, StdError>(v),
                None => r == Err::<String, StdError>(StdError::NotFound {}),
            },
    {
        match &self.voting_module {
            Some(v) => Ok(v.clone()),
            None => Err(StdError::NotFound {}),
        }
    }

    /// The governance modules in descending order of address from the
    /// greatest, those at or above `start_at`, at most `limit` of them.
    pub fn query_governance_modules(&self, start_at: Option<String>, limit: Option<u64>) -> (r: Vec<String>)
        ensures
            exists|pairs: Seq<(String, bool)>|
                #[trigger] self.governance_modules.desc_listing(opt_string(start_at), limit_of(limit), pairs) && r@
                    == pairs.map_values(|p: (String, bool)| p.0),
    {
        let lim: Option<usize> = match limit {
            Some(l) => {
                if l > usize::MAX as u64 {
                    None
                } else {
                    Some(l as usize)
                }
            },
            None => None,
        };
        let pairs = match &start_at {
            Some(s) => self.governance_modules.list_desc(Some(s), lim),
            None => self.governance_modules.list_desc(None, lim),
        };
        proof {
            assert(lim == limit_of(limit));
            assert(self.governance_modules.desc_listing(opt_string(start_at), limit_of(limit), pairs@));
        }
        keys_of(&pairs)
    }

    /// All of the DAO core's state; `version` is the contract version
    /// stored on chain.
    pub fn query_dump_state(&self, version: ContractVersion) -> (r: Result<DumpStateResponse, StdError>)
        ensures
            match self.voting_module {
                None => r == Err::<DumpStateResponse, StdError>(StdError::NotFound {}),
                Some(v) => r matches Ok(d) && d.config == self.config && d.version == version && d.voting_module == v
                    && exists|pairs: Seq<(String, bool)>|
                    #[trigger] self.governance_modules.desc_listing(None, None, pairs) && d.governance_modules@
                        == pairs.map_values(|p: (String, bool)| p.0),
            },
    {
        let voting_module = match &self.voting_module {
            Some(v) => v.clone(),
            None => {
                return Err(StdError::NotFound {});
            },
        };
        let pairs = self.governance_modules.list_desc(None, None);
        let governance_modules = keys_of(&pairs);
        Ok(DumpStateResponse { config: self.config.duplicate(), version, governance_modules, voting_module })
    }
}

/// The messages of a passed proposal, to be executed in order.
pub fn execute_proposal_hook(msgs: Vec<String>) -> (r: Vec<String>)
    ensures
        r == msgs,
{
    msgs
}

/// The sub-message that replaces the voting module, sent by the
/// contract at `contract`.
pub fn execute_update_voting_module(contract: &String, module: ModuleInstantiateInfo) -> (r: SubMsg)
    ensures
        r == (SubMsg { reply_id: VOTE_MODULE_UPDATE_REPLY_ID, msg: wasm_of(module, *contract) }),
{
    SubMsg { reply_id: VOTE_MODULE_UPDATE_REPLY_ID, msg: module.into_wasm_msg(contract.clone()) }
}

/// A requested limit as a count; one too large to count is no limit.
pub open spec fn limit_of(limit: Option<u64>) -> Option<usize> {
    match limit {
        Some(l) => if l > usize::MAX {
            None
        } else {
            Some(l as usize)
        },
        None => None,
    }
}

/// The keys of a list of entries.
pub fn keys_of<V>(pairs: &Vec<(String, V)>) -> (r: Vec<String>)
    ensures
        r@ == pairs@.map_values(|p: (String, V)| p.0),
{
    let mut r: Vec<String> = Vec::new();
    let mut i: usize = 0;
    while i < pairs.len()
        invariant
            i <= pairs@.len(),
            r@ == pairs@.map_values(|p: (String, V)| p.0).subrange(0, i as int),
        decreases pairs.len() - i,
    {
        r.push(pairs[i].0.clone());
        proof {
            assert(r@ =~= pairs@.map_values(|p: (String, V)| p.0).subrange(0, i + 1));
        }
        i = i + 1;
    }
    proof {
        assert(pairs@.map_values(|p: (String, V)| p.0).subrange(0, i as int) =~= pairs@.map_values(|p: (String, V)| p.0));
    }
    r
}

/// Every change the DAO core accepts leaves it with at least one
/// governance module counted.
pub proof fn law_module_count_never_zero(before: Governance, added: nat, removed: nat)
    requires
        before.wf(),
    ensures
        before.new_module_count(added, removed) matches Ok(n) ==> n > 0,
{
}

} // verus!
