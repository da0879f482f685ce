use nois_relay::errors::ContractError;
use nois_relay::gate::GateAction;
use nois_relay::relay::Relay;

fn s(x: &str) -> String {
    String::from(x)
}

fn pubkey48() -> Vec<u8> {
    vec![7u8; 48]
}

fn new_relay() -> Relay {
    Relay::new(Some(s("manager")), pubkey48(), 100, 64)
}

#[test]
fn manager_updates_operators_and_operator_updates_allowlist() {
    let mut r = new_relay();
    let res = r.update_operators(&s("manager"), vec![s("op1")], vec![]);
    assert_eq!(res, Ok(GateAction::UpdateOperators));
    assert!(r.gate.is_operator(&s("op1")));
    assert!(!r.gate.is_operator(&s("alice")));

    let res = r.update_allowlist(&s("op1"), vec![s("alice"), s("bob")], vec![]);
    assert_eq!(res, Ok(GateAction::UpdatePaymentWhitelist));
    assert!(r.gate.is_allowed(&s("alice")));
    assert!(r.gate.is_allowed(&s("bob")));

    // removal of a member works; removal of a non-member is a harmless no-op
    let res = r.update_allowlist(&s("manager"), vec![], vec![s("bob"), s("nobody")]);
    assert_eq!(res, Ok(GateAction::UpdatePaymentWhitelist));
    assert!(r.gate.is_allowed(&s("alice")));
    assert!(!r.gate.is_allowed(&s("bob")));
}

#[test]
fn adds_apply_before_removes() {
    let mut r = new_relay();
    let res = r.update_allowlist(&s("manager"), vec![s("carol")], vec![s("carol")]);
    assert_eq!(res, Ok(GateAction::UpdatePaymentWhitelist));
    assert!(!r.gate.is_allowed(&s("carol")));
}

#[test]
fn non_operator_non_manager_is_unauthorized() {
    let mut r = new_relay();
    r.update_operators(&s("manager"), vec![s("op1")], vec![]).unwrap();

    let res = r.update_operators(&s("mallory"), vec![s("mallory")], vec![]);
    assert_eq!(res, Err(ContractError::Unauthorized));
    let res = r.update_allowlist(&s("mallory"), vec![s("mallory")], vec![]);
    assert_eq!(res, Err(ContractError::Unauthorized));
    assert!(!r.gate.is_allowed(&s("mallory")));
    assert!(!r.gate.is_operator(&s("mallory")));
}

#[test]
fn operators_cannot_promote_operators() {
    let mut r = new_relay();
    r.update_operators(&s("manager"), vec![s("op1")], vec![]).unwrap();
    let res = r.update_operators(&s("op1"), vec![s("op2")], vec![]);
    assert_eq!(res, Err(ContractError::Unauthorized));
    assert!(!r.gate.is_operator(&s("op2")));
}

#[test]
fn without_manager_gated_calls_never_succeed() {
    let mut r = Relay::new(None, pubkey48(), 100, 64);
    let res = r.update_operators(&s("anyone"), vec![s("x")], vec![]);
    assert_eq!(res, Err(ContractError::Unauthorized));
    let res = r.update_allowlist(&s("anyone"), vec![s("x")], vec![]);
    assert_eq!(res, Err(ContractError::Unauthorized));
    let res = r.set_peer_contract(&s("anyone"), s("peer"));
    assert_eq!(res, Err(ContractError::Unauthorized));
}

#[test]
fn peer_contract_is_set_once() {
    let mut r = new_relay();
    assert_eq!(r.set_peer_contract(&s("manager"), s("peer1")), Ok(()));
    assert_eq!(
        r.set_peer_contract(&s("manager"), s("peer2")),
        Err(ContractError::ContractAlreadySet)
    );
    assert_eq!(r.peer_contract, Some(s("peer1")));
}

#[test]
fn channel_is_registered_once() {
    let mut r = new_relay();
    assert_eq!(r.register_channel(s("channel-7")), Ok(()));
    assert_eq!(
        r.register_channel(s("channel-8")),
        Err(ContractError::ChannelAlreadyRegistered)
    );
    assert_eq!(r.channel, Some(s("channel-7")));
}

#[test]
fn moniker_validation() {
    let mut r = new_relay();
    assert_eq!(
        r.register_bot(&s("bot1"), s("")),
        Err(ContractError::MonikerEmpty)
    );
    assert_eq!(
        r.register_bot(&s("bot1"), s("abcdefghijklmnopqrstu")),
        Err(ContractError::MonikerTooLong)
    );
    assert_eq!(r.register_bot(&s("bot1"), s("a-fine-moniker")), Ok(()));
    // renewal keeps a single record
    assert_eq!(r.register_bot(&s("bot1"), s("renewed")), Ok(()));
    assert_eq!(r.rounds.bots.len(), 1);
    assert_eq!(r.rounds.bots[0].moniker, s("renewed"));
}

#[test]
fn infrastructure_error_kinds_are_distinguishable() {
    let a = ContractError::Std(s("storage broke"));
    let b = ContractError::ChannelError(s("port closed"));
    let c = ContractError::ForeignError { err: s("remote fault") };
    assert_eq!(a, ContractError::Std(s("storage broke")));
    assert_ne!(a, ContractError::Std(s("other")));
    assert_ne!(b, c);
    assert_eq!(c, ContractError::ForeignError { err: s("remote fault") });
}
