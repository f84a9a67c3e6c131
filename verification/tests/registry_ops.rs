use craps::registry::SessionRegistry;
use craps::User;

#[test]
fn register_lookup_remove_round_trip() {
    let mut reg = SessionRegistry::new();
    assert_eq!(reg.len(), 0);

    let u = User::new(7, 100);
    assert_eq!(u.uuid, 7);
    assert_eq!(u.nick, "Anonymous");
    assert_eq!(u.hb, 100);

    assert!(reg.register(u));
    assert_eq!(reg.len(), 1);

    let found = reg.lookup(7).unwrap();
    assert_eq!(found.uuid, 7);
    assert_eq!(found.nick, "Anonymous");
    assert_eq!(found.hb, 100);
    assert!(reg.lookup(8).is_none());

    let removed = reg.remove(7).unwrap();
    assert_eq!(removed.uuid, 7);
    assert_eq!(reg.len(), 0);
    assert!(reg.lookup(7).is_none());
}

#[test]
fn duplicate_identity_is_rejected_not_overwritten() {
    let mut reg = SessionRegistry::new();
    assert!(reg.register(User::new(1, 10)));
    assert!(!reg.register(User::new(1, 20)));
    assert_eq!(reg.len(), 1);
    assert_eq!(reg.lookup(1).unwrap().hb, 10);
}

#[test]
fn removing_an_absent_identity_is_a_no_op() {
    let mut reg = SessionRegistry::new();
    reg.register(User::new(1, 10));
    assert!(reg.remove(2).is_none());
    assert_eq!(reg.len(), 1);
    assert!(reg.remove(1).is_some());
    assert!(reg.remove(1).is_none());
    assert_eq!(reg.len(), 0);
}
