use emailpipe::log_io::{LogIO, WriteAction};

fn client_text(a: &WriteAction) -> &str {
    match a {
        WriteAction::ToClient(s) => s,
        _ => panic!("expected a client write"),
    }
}

fn target_write(a: &WriteAction) -> (u64, &str) {
    match a {
        WriteAction::ToTarget(t, s) => (*t, s),
        _ => panic!("expected a target write"),
    }
}

#[test]
fn buffered_writes_only_reach_the_client() {
    let mut w = LogIO::new(String::from(">> "));
    let acts = w.write_all("250 ok\r\n");
    assert_eq!(acts.len(), 1);
    assert_eq!(client_text(&acts[0]), "250 ok\r\n");
}

#[test]
fn buffered_log_emits_nothing() {
    let mut w = LogIO::new(String::from(">> "));
    let acts = w.log("HELO x\r\n");
    assert!(acts.is_empty());
}

#[test]
fn redirect_drains_the_buffer_once_in_order() {
    let mut w = LogIO::new(String::from(">> "));
    w.log("HELO x\r\n");
    w.write_all("250 hi\r\n");
    let acts = w.switch_log_and_flush(7);
    assert_eq!(acts.len(), 1);
    let (t, text) = target_write(&acts[0]);
    assert_eq!(t, 7);
    assert_eq!(text, ">> HELO x\r\n250 hi\r\n");
}

#[test]
fn second_redirect_repoints_without_replaying() {
    let mut w = LogIO::new(String::from(">> "));
    w.log("HELO x\r\n");
    let first = w.switch_log_and_flush(7);
    assert_eq!(first.len(), 1);
    // a second redirection must not resend the buffered prefix
    let second = w.switch_log_and_flush(9);
    assert!(second.is_empty());
    // and later writes go to the new target
    let acts = w.write_all("250 ok\r\n");
    assert_eq!(acts.len(), 2);
    let (t, text) = target_write(&acts[0]);
    assert_eq!(t, 9);
    assert_eq!(text, "250 ok\r\n");
    assert_eq!(client_text(&acts[1]), "250 ok\r\n");
}

#[test]
fn forwarded_log_carries_the_prefix() {
    let mut w = LogIO::new(String::from(">> "));
    w.switch_log_and_flush(3);
    let acts = w.log("DATA\r\n");
    assert_eq!(acts.len(), 1);
    let (t, text) = target_write(&acts[0]);
    assert_eq!(t, 3);
    assert_eq!(text, ">> DATA\r\n");
}
