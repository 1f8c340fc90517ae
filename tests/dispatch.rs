use e6kiro::dispatch::{classify, Command};

#[test]
fn ping_replies_pong() {
    match classify("!ping") {
        Command::Reply(text) => assert_eq!(text, "Pong!"),
        _ => panic!("ping should be answered"),
    }
}

#[test]
fn search_command_is_recognised_and_capped() {
    match classify("!e6 male 30") {
        Command::Search(q) => {
            assert_eq!(q.tags, vec!["male", "rating:explicit"]);
            assert_eq!(q.quantity, 10);
        }
        _ => panic!("a search should be recognised"),
    }
}

#[test]
fn other_messages_are_ignored() {
    assert!(matches!(classify("hello"), Command::Ignore));
    assert!(matches!(classify("!ping now"), Command::Ignore));
    assert!(matches!(classify("!e"), Command::Ignore));
}
