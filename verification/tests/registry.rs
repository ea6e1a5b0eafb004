use emailpipe::registry::MailboxRegistry;

#[test]
fn lookup_on_empty_registry_misses() {
    let reg: MailboxRegistry<u64> = MailboxRegistry::new();
    assert!(reg.lookup("a1b2.c3d4").is_none());
}

#[test]
fn register_then_lookup_finds_the_handle() {
    let mut reg: MailboxRegistry<u64> = MailboxRegistry::new();
    assert_eq!(reg.register(String::from("a1b2.c3d4"), 7), None);
    assert_eq!(reg.lookup("a1b2.c3d4"), Some(&7));
    assert!(reg.lookup("zzzz.zzzz").is_none());
}

#[test]
fn register_collision_evicts_the_prior_handle() {
    let mut reg: MailboxRegistry<u64> = MailboxRegistry::new();
    assert_eq!(reg.register(String::from("a1b2.c3d4"), 7), None);
    // same name again: the old handle comes back for eviction notification,
    // and lookups now see the new one
    assert_eq!(reg.register(String::from("a1b2.c3d4"), 9), Some(7));
    assert_eq!(reg.lookup("a1b2.c3d4"), Some(&9));
}

#[test]
fn unregister_removes_the_binding() {
    let mut reg: MailboxRegistry<u64> = MailboxRegistry::new();
    reg.register(String::from("a1b2.c3d4"), 7);
    reg.register(String::from("e5f6.g7h8"), 8);
    assert_eq!(reg.unregister("a1b2.c3d4"), Some(7));
    assert!(reg.lookup("a1b2.c3d4").is_none());
    assert_eq!(reg.lookup("e5f6.g7h8"), Some(&8));
    assert_eq!(reg.unregister("a1b2.c3d4"), None);
}

#[test]
fn registry_stores_arbitrary_handle_types() {
    let mut reg: MailboxRegistry<String> = MailboxRegistry::new();
    assert_eq!(reg.register(String::from("a1b2.c3d4"), String::from("conn")), None);
    assert_eq!(reg.lookup("a1b2.c3d4"), Some(&String::from("conn")));
}
