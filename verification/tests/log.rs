use rusty_lightning::log::LogPrinter;

#[test]
fn a_message_is_printed_with_where_it_comes_from() {
    let printed = LogPrinter {}.log("INFO", "lightning::ln", "channel.rs", 120, "hello");
    assert_eq!(printed.unwrap(), "INFO  [lightning::ln : channel.rs, 120] hello");
}

#[test]
fn a_long_level_is_not_filled_up() {
    let printed = LogPrinter {}.log("ERROR", "m", "f", 0, "");
    assert_eq!(printed.unwrap(), "ERROR [m : f, 0] ");
    let printed = LogPrinter {}.log("CRITICAL", "m", "f", 4294967295, "x");
    assert_eq!(printed.unwrap(), "CRITICAL [m : f, 4294967295] x");
    let printed = LogPrinter {}.log("", "m", "f", 1, "x");
    assert_eq!(printed.unwrap(), "      [m : f, 1] x");
    let printed = LogPrinter {}.log("éé", "m", "f", 1, "x");
    assert_eq!(printed.unwrap(), "éé    [m : f, 1] x");
}

#[test]
fn gossip_is_not_printed() {
    for kind in [256, 257, 258] {
        for text in [
            format!("Received message of type {}", kind),
            format!("Received message of type {} from somebody", kind),
            format!("é: Received message of type {}.", kind),
        ] {
            assert_eq!(LogPrinter {}.log("TRACE", "m", "f", 1, &text), None);
        }
    }
}

#[test]
fn other_messages_are_printed() {
    for text in
        ["Received message of type 259", "Received message of type 25", "received message of type 258"]
    {
        assert!(LogPrinter {}.log("TRACE", "m", "f", 1, text).is_some());
    }
}
