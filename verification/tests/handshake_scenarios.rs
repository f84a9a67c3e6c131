use craps::handshake::{ConnState, ConnectionHandler};
use craps::protocol::{join_ack, HandshakeError};
use craps::registry::SessionRegistry;

#[test]
fn join_registers_and_acknowledges() {
    let mut reg = SessionRegistry::new();
    let mut h = ConnectionHandler::new();
    assert_eq!(reg.len(), 0);

    let r = h.on_first_message(&mut reg, Some("0"), 17);
    assert!(r.is_ok());
    assert_eq!(h.state, ConnState::Registered);
    assert_eq!(reg.len(), 1);

    let ack = join_ack();
    assert_eq!(ack, "{\"action\":\"0\",\"message\":\"\"}");
    h.on_ack_result(&mut reg, true);
    assert_eq!(h.state, ConnState::Active);
    assert_eq!(reg.len(), 1);
}

#[test]
fn ack_payload_is_well_formed_json() {
    let ack = join_ack();
    let v: serde_json::Value = serde_json::from_str(&ack).unwrap();
    assert_eq!(v["action"].as_str().unwrap(), "0");
    assert_eq!(v["message"].as_str().unwrap(), "");
}

#[test]
fn wrong_action_code_closes_without_registration() {
    let mut reg = SessionRegistry::new();
    let mut h = ConnectionHandler::new();

    let r = h.on_first_message(&mut reg, Some("7"), 17);
    assert_eq!(r, Err(HandshakeError::WrongActionCode));
    assert_eq!(h.state, ConnState::Closed);
    assert_eq!(reg.len(), 0);
}

#[test]
fn non_numeric_message_closes_without_registration() {
    let mut reg = SessionRegistry::new();
    let mut h = ConnectionHandler::new();

    let r = h.on_first_message(&mut reg, Some("hello"), 17);
    assert_eq!(r, Err(HandshakeError::NonNumeric));
    assert_eq!(h.state, ConnState::Closed);
    assert_eq!(reg.len(), 0);
}

#[test]
fn disconnect_before_any_message_closes_cleanly() {
    let mut reg = SessionRegistry::new();
    let mut h = ConnectionHandler::new();

    let r = h.on_first_message(&mut reg, None, 17);
    assert_eq!(r, Err(HandshakeError::ClosedBeforeMessage));
    assert_eq!(h.state, ConnState::Closed);
    assert_eq!(reg.len(), 0);
}

#[test]
fn two_concurrent_joins_get_distinct_identities() {
    let mut reg = SessionRegistry::new();
    let mut h1 = ConnectionHandler::new();
    let mut h2 = ConnectionHandler::new();

    let r1 = h1.on_first_message(&mut reg, Some("0"), 1);
    let r2 = h2.on_first_message(&mut reg, Some("0"), 2);
    assert!(r1.is_ok());
    assert!(r2.is_ok());
    assert_eq!(reg.len(), 2);

    let id1 = h1.identity.unwrap();
    let id2 = h2.identity.unwrap();
    assert_ne!(id1, id2);

    // Each connection gets its own acknowledgement.
    let ack1 = join_ack();
    let ack2 = join_ack();
    assert_eq!(ack1, ack2);
    h1.on_ack_result(&mut reg, true);
    h2.on_ack_result(&mut reg, true);
    assert_eq!(h1.state, ConnState::Active);
    assert_eq!(h2.state, ConnState::Active);
    assert_eq!(reg.len(), 2);
}

#[test]
fn failed_ack_send_deregisters_the_session() {
    let mut reg = SessionRegistry::new();
    let mut h = ConnectionHandler::new();

    let r = h.on_first_message(&mut reg, Some("0"), 17);
    assert!(r.is_ok());
    assert_eq!(reg.len(), 1);

    h.on_ack_result(&mut reg, false);
    assert_eq!(h.state, ConnState::Closed);
    assert_eq!(h.identity, None);
    assert_eq!(reg.len(), 0);

    // The registry capacity is reusable by a follow-up connection.
    let mut h2 = ConnectionHandler::new();
    let r2 = h2.on_first_message(&mut reg, Some("0"), 18);
    assert!(r2.is_ok());
    assert_eq!(reg.len(), 1);
}

#[test]
fn disconnect_deregisters_and_is_idempotent() {
    let mut reg = SessionRegistry::new();
    let mut h = ConnectionHandler::new();

    h.on_first_message(&mut reg, Some("0"), 17).unwrap();
    h.on_ack_result(&mut reg, true);
    assert_eq!(reg.len(), 1);

    h.on_disconnect(&mut reg);
    assert_eq!(h.state, ConnState::Closed);
    assert_eq!(h.identity, None);
    assert_eq!(reg.len(), 0);

    h.on_disconnect(&mut reg);
    assert_eq!(h.state, ConnState::Closed);
    assert_eq!(reg.len(), 0);
}

#[test]
fn identity_collision_rejects_the_connection() {
    let mut reg = SessionRegistry::new();
    let mut h1 = ConnectionHandler::new();
    let mut h2 = ConnectionHandler::new();

    assert!(h1.register_session(&mut reg, 42, 1));
    assert_eq!(h1.state, ConnState::Registered);
    assert_eq!(reg.len(), 1);

    // The same identity again is rejected, not overwritten.
    assert!(!h2.register_session(&mut reg, 42, 2));
    assert_eq!(h2.state, ConnState::Closed);
    assert_eq!(reg.len(), 1);
    assert_eq!(reg.lookup(42).unwrap().hb, 1);
}
