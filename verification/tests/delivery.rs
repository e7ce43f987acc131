use koharu::delivery::MessageOutbox;

#[test]
fn messages_wait_for_the_browser_and_keep_their_order() {
    let mut outbox = MessageOutbox::new();
    assert_eq!(outbox.send("one"), None);
    assert_eq!(outbox.send("two"), None);
    assert_eq!(outbox.browser_ready(), vec!["one", "two"]);
    assert!(outbox.is_ready());
    assert_eq!(outbox.send("three"), Some("three"));
    assert!(outbox.browser_ready().is_empty());
}

#[test]
fn a_recreated_browser_makes_messages_wait_again() {
    let mut outbox = MessageOutbox::new();
    outbox.browser_ready();
    outbox.browser_lost();
    assert!(!outbox.is_ready());
    assert_eq!(outbox.send(1), None);
    assert_eq!(outbox.browser_ready(), vec![1]);
}
