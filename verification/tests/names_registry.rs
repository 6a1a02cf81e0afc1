use dao_contracts::names_registry::{
    validate_payment_info, Coin, ContractError, PaymentInfo, PaymentMsg, ReceiveMsg, Registry,
};
use dao_contracts::std_error::StdError;

const ADMIN: &str = "admin";
const DAO: &str = "dao";
const OTHER: &str = "other";
const TOKEN: &str = "token";
const OTHER_TOKEN: &str = "other_token";

fn cw20_registry() -> Registry {
    Registry::instantiate(
        ADMIN.to_string(),
        PaymentInfo::Cw20Payment { token_address: TOKEN.to_string(), payment_amount: 50 },
        true,
    )
    .unwrap()
}

fn native_registry() -> Registry {
    Registry::instantiate(
        ADMIN.to_string(),
        PaymentInfo::NativePayment { token_denom: "ujuno".to_string(), payment_amount: 50 },
        false,
    )
    .unwrap()
}

fn register_cw20(reg: &mut Registry, token: &str, dao: &str, amount: u128, name: &str) -> Result<PaymentMsg, ContractError> {
    reg.execute_receive(token.to_string(), dao.to_string(), amount, Ok(ReceiveMsg::Register { name: name.to_string() }))
}

fn register_native(reg: &mut Registry, dao: &str, denom: &str, amount: u128, name: &str) -> Result<PaymentMsg, ContractError> {
    let funds = vec![Coin { denom: denom.to_string(), amount }];
    reg.execute_register_name_native(dao.to_string(), &funds, name.to_string())
}

#[test]
fn instantiate_checks_payment() {
    let zero = Registry::instantiate(
        ADMIN.to_string(),
        PaymentInfo::Cw20Payment { token_address: TOKEN.to_string(), payment_amount: 0 },
        true,
    );
    assert_eq!(zero.err(), Some(ContractError::InvalidPaymentAmount {}));
    let not_cw20 = Registry::instantiate(
        ADMIN.to_string(),
        PaymentInfo::Cw20Payment { token_address: TOKEN.to_string(), payment_amount: 5 },
        false,
    );
    assert_eq!(not_cw20.err(), Some(ContractError::InvalidCw20 {}));
    assert_eq!(
        validate_payment_info(&PaymentInfo::NativePayment { token_denom: "ujuno".to_string(), payment_amount: 0 }, true),
        Err(ContractError::InvalidPaymentAmount {})
    );
    assert_eq!(
        validate_payment_info(&PaymentInfo::NativePayment { token_denom: "ujuno".to_string(), payment_amount: 1 }, false),
        Ok(())
    );
}

#[test]
fn register_with_cw20() {
    let mut reg = cw20_registry();
    assert_eq!(register_native(&mut reg, DAO, "ujunox", 50, "Name"), Err(ContractError::InvalidPayment {}));
    assert_eq!(register_cw20(&mut reg, OTHER_TOKEN, DAO, 50, "Name"), Err(ContractError::UnrecognisedCw20 {}));
    assert_eq!(register_cw20(&mut reg, TOKEN, DAO, 25, "Name"), Err(ContractError::IncorrectPaymentAmount {}));
    reg.execute_reserve(ADMIN.to_string(), "Reserved".to_string()).unwrap();
    assert_eq!(register_cw20(&mut reg, TOKEN, DAO, 50, "Reserved"), Err(ContractError::NameReserved {}));

    let paid = register_cw20(&mut reg, TOKEN, DAO, 50, "Name").unwrap();
    assert_eq!(
        paid,
        PaymentMsg::Cw20Transfer { contract_addr: TOKEN.to_string(), recipient: ADMIN.to_string(), amount: 50 }
    );
    assert_eq!(reg.query_look_up_dao_by_name(&"Name".to_string()).dao, Some(DAO.to_string()));
    assert_eq!(reg.query_look_up_name_by_dao(&DAO.to_string()).name, Some("Name".to_string()));

    assert_eq!(register_cw20(&mut reg, TOKEN, OTHER, 50, "Name"), Err(ContractError::NameAlreadyTaken {}));
    assert_eq!(register_cw20(&mut reg, TOKEN, DAO, 50, "Name2"), Err(ContractError::AlreadyRegisteredName {}));
    assert_eq!(reg.query_look_up_dao_by_name(&"Name2".to_string()).dao, None);
}

#[test]
fn register_with_natives() {
    let mut reg = native_registry();
    assert_eq!(register_cw20(&mut reg, TOKEN, DAO, 50, "Name"), Err(ContractError::Unauthorized {}));
    assert_eq!(register_native(&mut reg, DAO, "uatom", 50, "Name"), Err(ContractError::UnrecognisedNativeToken {}));
    assert_eq!(register_native(&mut reg, DAO, "ujuno", 49, "Name"), Err(ContractError::IncorrectPaymentAmount {}));
    // The first coin of the configured denomination is the one that counts.
    let funds = vec![
        Coin { denom: "uatom".to_string(), amount: 50 },
        Coin { denom: "ujuno".to_string(), amount: 50 },
        Coin { denom: "ujuno".to_string(), amount: 7 },
    ];
    let paid = reg.execute_register_name_native(DAO.to_string(), &funds, "Name".to_string()).unwrap();
    assert_eq!(
        paid,
        PaymentMsg::BankSend { to_address: ADMIN.to_string(), denom: "ujuno".to_string(), amount: 50 }
    );
    let available = reg.query_is_name_available_to_register(&"Name".to_string());
    assert!(available.taken);
    assert!(!available.reserved);
}

#[test]
fn unparseable_receive_message() {
    let mut reg = cw20_registry();
    let res = reg.execute_receive(TOKEN.to_string(), DAO.to_string(), 50, Err(StdError::ParseErr {}));
    assert_eq!(res, Err(ContractError::Std(StdError::ParseErr {})));
}

#[test]
fn revoke_by_owner_or_admin_only() {
    let mut reg = cw20_registry();
    assert_eq!(reg.execute_revoke(DAO.to_string(), "Name".to_string()), Err(ContractError::NameNotRegistered {}));
    register_cw20(&mut reg, TOKEN, DAO, 50, "Name").unwrap();
    assert_eq!(reg.execute_revoke(OTHER.to_string(), "Name".to_string()), Err(ContractError::Unauthorized {}));
    reg.execute_revoke(DAO.to_string(), "Name".to_string()).unwrap();
    assert_eq!(reg.query_look_up_dao_by_name(&"Name".to_string()).dao, None);
    assert_eq!(reg.query_look_up_name_by_dao(&DAO.to_string()).name, None);
    // Once revoked, the DAO may register again, and the admin may revoke.
    register_cw20(&mut reg, TOKEN, DAO, 50, "Name").unwrap();
    reg.execute_revoke(ADMIN.to_string(), "Name".to_string()).unwrap();
    assert!(!reg.query_is_name_available_to_register(&"Name".to_string()).taken);
}

#[test]
fn reserve_and_transfer_reservation() {
    let mut reg = cw20_registry();
    assert_eq!(reg.execute_reserve(DAO.to_string(), "Reserved".to_string()), Err(ContractError::Unauthorized {}));
    reg.execute_reserve(ADMIN.to_string(), "Reserved".to_string()).unwrap();
    assert_eq!(reg.execute_reserve(ADMIN.to_string(), "Reserved".to_string()), Err(ContractError::NameReserved {}));
    register_cw20(&mut reg, TOKEN, OTHER, 50, "Taken").unwrap();
    assert_eq!(reg.execute_reserve(ADMIN.to_string(), "Taken".to_string()), Err(ContractError::NameAlreadyTaken {}));

    assert_eq!(
        reg.execute_transfer_reservation(DAO.to_string(), "Reserved".to_string(), DAO.to_string()),
        Err(ContractError::Unauthorized {})
    );
    assert_eq!(
        reg.execute_transfer_reservation(ADMIN.to_string(), "Free".to_string(), DAO.to_string()),
        Err(ContractError::NameNotReserved {})
    );
    assert_eq!(
        reg.execute_transfer_reservation(ADMIN.to_string(), "Reserved".to_string(), OTHER.to_string()),
        Err(ContractError::AlreadyRegisteredName {})
    );
    reg.execute_transfer_reservation(ADMIN.to_string(), "Reserved".to_string(), DAO.to_string()).unwrap();
    let available = reg.query_is_name_available_to_register(&"Reserved".to_string());
    assert!(available.taken);
    assert!(!available.reserved);
    assert_eq!(reg.query_look_up_name_by_dao(&DAO.to_string()).name, Some("Reserved".to_string()));
}

#[test]
fn update_config_by_admin_only() {
    let mut reg = cw20_registry();
    assert_eq!(
        reg.execute_update_config(DAO.to_string(), Some(DAO.to_string()), None, true),
        Err(ContractError::Unauthorized {})
    );
    assert_eq!(
        reg.execute_update_config(
            ADMIN.to_string(),
            None,
            Some(PaymentInfo::NativePayment { token_denom: "ujuno".to_string(), payment_amount: 0 }),
            false
        ),
        Err(ContractError::InvalidPaymentAmount {})
    );
    reg.execute_update_config(
        ADMIN.to_string(),
        Some(OTHER.to_string()),
        Some(PaymentInfo::NativePayment { token_denom: "ujuno".to_string(), payment_amount: 10 }),
        false,
    )
    .unwrap();
    let config = reg.query_config();
    assert_eq!(config.admin, OTHER.to_string());
    match config.payment_info {
        PaymentInfo::NativePayment { token_denom, payment_amount } => {
            assert_eq!(token_denom, "ujuno");
            assert_eq!(payment_amount, 10);
        }
        PaymentInfo::Cw20Payment { .. } => panic!("the payment was switched to native"),
    }
    // The old admin is no longer allowed.
    assert_eq!(reg.execute_reserve(ADMIN.to_string(), "X".to_string()), Err(ContractError::Unauthorized {}));
}

const NON_ADMIN: &str = "nonadmin";

fn cw20_payment(token: &str, amount: u128) -> PaymentInfo {
    PaymentInfo::Cw20Payment { token_address: token.to_string(), payment_amount: amount }
}

fn native_payment(denom: &str, amount: u128) -> PaymentInfo {
    PaymentInfo::NativePayment { token_denom: denom.to_string(), payment_amount: amount }
}

fn registry_paid_in(payment: PaymentInfo) -> Registry {
    let is_cw20 = matches!(payment, PaymentInfo::Cw20Payment { .. });
    Registry::instantiate(ADMIN.to_string(), payment, is_cw20).unwrap()
}

fn dao_of(reg: &Registry, name: &str) -> Option<String> {
    reg.query_look_up_dao_by_name(&name.to_string()).dao
}

fn name_of(reg: &Registry, dao: &str) -> Option<String> {
    reg.query_look_up_name_by_dao(&dao.to_string()).name
}

/// The admin and the payment the registry is configured with, written
/// out as (admin, is cw20, token or denom, amount).
fn config_of(reg: &Registry) -> (String, bool, String, u128) {
    let c = reg.query_config();
    match c.payment_info {
        PaymentInfo::Cw20Payment { token_address, payment_amount } => (c.admin, true, token_address, payment_amount),
        PaymentInfo::NativePayment { token_denom, payment_amount } => (c.admin, false, token_denom, payment_amount),
    }
}

#[test]
fn tests_test_instantiate() {
    // A registry paid in a cw20 token is set up.
    registry_paid_in(cw20_payment(TOKEN, 50));
    // One whose payment address is not a cw20 contract is refused.
    let err = Registry::instantiate(ADMIN.to_string(), cw20_payment("names", 50), false).unwrap_err();
    assert_eq!(err, ContractError::InvalidCw20 {});
}

#[test]
fn test_register_cw20() {
    let mut reg = registry_paid_in(cw20_payment(TOKEN, 50));
    let name = "Name";
    register_native(&mut reg, DAO, "ujunox", 50, name).unwrap_err();
    register_cw20(&mut reg, OTHER_TOKEN, DAO, 50, name).unwrap_err();
    register_cw20(&mut reg, TOKEN, DAO, 25, name).unwrap_err();
    reg.execute_reserve(ADMIN.to_string(), "Reserved".to_string()).unwrap();
    register_cw20(&mut reg, TOKEN, DAO, 50, "Reserved").unwrap_err();

    // The fee goes to the admin.
    let paid = register_cw20(&mut reg, TOKEN, DAO, 50, name).unwrap();
    assert_eq!(
        paid,
        PaymentMsg::Cw20Transfer { contract_addr: TOKEN.to_string(), recipient: ADMIN.to_string(), amount: 50 }
    );
    assert_eq!(dao_of(&reg, name), Some(DAO.to_string()));
    assert_eq!(name_of(&reg, DAO), Some(name.to_string()));

    register_cw20(&mut reg, TOKEN, NON_ADMIN, 50, name).unwrap_err();
    register_cw20(&mut reg, TOKEN, DAO, 50, "Name2").unwrap_err();
    assert_eq!(dao_of(&reg, "Name2"), None);
}

#[test]
fn test_register_native() {
    let mut reg = registry_paid_in(native_payment("ujuno", 50));
    let name = "Name";
    register_cw20(&mut reg, TOKEN, DAO, 50, name).unwrap_err();
    reg.execute_register_name_native(DAO.to_string(), &vec![], name.to_string()).unwrap_err();
    register_native(&mut reg, DAO, "uatom", 50, name).unwrap_err();
    register_native(&mut reg, DAO, "ujuno", 25, name).unwrap_err();
    reg.execute_reserve(ADMIN.to_string(), "Reserved".to_string()).unwrap();
    register_native(&mut reg, DAO, "ujuno", 50, "Reserved").unwrap_err();

    let paid = register_native(&mut reg, DAO, "ujuno", 50, name).unwrap();
    assert_eq!(paid, PaymentMsg::BankSend { to_address: ADMIN.to_string(), denom: "ujuno".to_string(), amount: 50 });
    assert_eq!(dao_of(&reg, name), Some(DAO.to_string()));
    assert_eq!(name_of(&reg, DAO), Some(name.to_string()));

    register_native(&mut reg, NON_ADMIN, "ujuno", 50, name).unwrap_err();
    register_native(&mut reg, DAO, "ujuno", 50, "Name2").unwrap_err();
    assert_eq!(dao_of(&reg, "Name2"), None);
}

#[test]
fn test_payment_info_switch() {
    let mut reg = registry_paid_in(cw20_payment(TOKEN, 50));
    register_cw20(&mut reg, TOKEN, DAO, 50, "Name1").unwrap();
    register_cw20(&mut reg, OTHER_TOKEN, NON_ADMIN, 50, "Name2").unwrap_err();
    register_native(&mut reg, NON_ADMIN, "ujuno", 50, "Name3").unwrap_err();

    reg.execute_update_config(ADMIN.to_string(), None, Some(cw20_payment(OTHER_TOKEN, 50)), true).unwrap();
    register_cw20(&mut reg, TOKEN, NON_ADMIN, 50, "Name3").unwrap_err();
    register_cw20(&mut reg, OTHER_TOKEN, NON_ADMIN, 50, "Name2").unwrap();
    register_native(&mut reg, NON_ADMIN, "ujuno", 50, "Name3").unwrap_err();

    reg.execute_update_config(ADMIN.to_string(), None, Some(native_payment("ujuno", 50)), false).unwrap();
    register_cw20(&mut reg, TOKEN, ADMIN, 50, "Name3").unwrap_err();
    register_cw20(&mut reg, OTHER_TOKEN, ADMIN, 50, "Name3").unwrap_err();
    register_native(&mut reg, ADMIN, "ujuno", 50, "Name3").unwrap();
}

#[test]
fn test_revoke() {
    let mut reg = registry_paid_in(cw20_payment(TOKEN, 50));
    let name = "Name";
    register_cw20(&mut reg, TOKEN, DAO, 50, name).unwrap();
    reg.execute_revoke(ADMIN.to_string(), "NotExist".to_string()).unwrap_err();
    reg.execute_revoke(NON_ADMIN.to_string(), name.to_string()).unwrap_err();
    reg.execute_revoke(DAO.to_string(), name.to_string()).unwrap();
    register_cw20(&mut reg, TOKEN, DAO, 50, name).unwrap();
    reg.execute_revoke(ADMIN.to_string(), name.to_string()).unwrap();
}

#[test]
fn test_reserve() {
    let mut reg = registry_paid_in(cw20_payment(TOKEN, 50));
    let name = "Name";
    let already_registered_name = "Already";
    register_cw20(&mut reg, TOKEN, NON_ADMIN, 50, already_registered_name).unwrap();
    reg.execute_reserve(ADMIN.to_string(), already_registered_name.to_string()).unwrap_err();
    reg.execute_reserve(NON_ADMIN.to_string(), name.to_string()).unwrap_err();

    let res = reg.query_is_name_available_to_register(&name.to_string());
    assert!(!res.taken);
    assert!(!res.reserved);

    reg.execute_reserve(ADMIN.to_string(), name.to_string()).unwrap();
    let res = reg.query_is_name_available_to_register(&name.to_string());
    assert!(!res.taken);
    assert!(res.reserved);

    reg.execute_transfer_reservation(NON_ADMIN.to_string(), name.to_string(), DAO.to_string()).unwrap_err();
    reg.execute_transfer_reservation(ADMIN.to_string(), "NotReserved".to_string(), DAO.to_string()).unwrap_err();
    reg.execute_transfer_reservation(ADMIN.to_string(), name.to_string(), NON_ADMIN.to_string()).unwrap_err();
    reg.execute_transfer_reservation(ADMIN.to_string(), name.to_string(), DAO.to_string()).unwrap();

    assert_eq!(dao_of(&reg, name), Some(DAO.to_string()));
    let res = reg.query_is_name_available_to_register(&name.to_string());
    assert!(res.taken);
    assert!(!res.reserved);

    reg.execute_reserve(ADMIN.to_string(), name.to_string()).unwrap_err();
}

#[test]
fn tests_test_update_config() {
    let mut reg = registry_paid_in(cw20_payment(TOKEN, 50));
    assert_eq!(config_of(&reg), (ADMIN.to_string(), true, TOKEN.to_string(), 50));

    reg.execute_update_config(
        NON_ADMIN.to_string(),
        Some(OTHER_TOKEN.to_string()),
        Some(native_payment("ujunox", 50)),
        false,
    )
    .unwrap_err();

    reg.execute_update_config(ADMIN.to_string(), Some(NON_ADMIN.to_string()), Some(native_payment("ujunox", 25)), false)
        .unwrap();
    assert_eq!(config_of(&reg), (NON_ADMIN.to_string(), false, "ujunox".to_string(), 25));

    reg.execute_update_config(NON_ADMIN.to_string(), Some(ADMIN.to_string()), None, false).unwrap();
    assert_eq!(config_of(&reg), (ADMIN.to_string(), false, "ujunox".to_string(), 25));

    reg.execute_update_config(ADMIN.to_string(), None, Some(native_payment("uatom", 50)), false).unwrap();
    assert_eq!(config_of(&reg), (ADMIN.to_string(), false, "uatom".to_string(), 50));
}

#[test]
fn revoking_undoes_a_registration() {
    let mut reg = registry_paid_in(cw20_payment(TOKEN, 50));
    let before = reg.query_is_name_available_to_register(&"Name".to_string());
    register_cw20(&mut reg, TOKEN, DAO, 50, "Name").unwrap();
    reg.execute_revoke(DAO.to_string(), "Name".to_string()).unwrap();
    assert_eq!(reg.query_is_name_available_to_register(&"Name".to_string()), before);
    assert_eq!(dao_of(&reg, "Name"), None);
    assert_eq!(name_of(&reg, DAO), None);
    assert_eq!(config_of(&reg), (ADMIN.to_string(), true, TOKEN.to_string(), 50));
}
