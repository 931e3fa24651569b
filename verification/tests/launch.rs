use reversi::launch::{parse_launch, same_text, Launch, DEFAULT_RELAY_URL};

fn args(list: &[&str]) -> Vec<String> {
    list.iter().map(|s| s.to_string()).collect()
}

#[test]
fn no_flags_is_single_player() {
    assert_eq!(parse_launch(&args(&[])), Launch::SinglePlayer);
    assert_eq!(parse_launch(&args(&["--verbose"])), Launch::SinglePlayer);
}

#[test]
fn online_uses_the_default_relay() {
    assert_eq!(parse_launch(&args(&["--online"])), Launch::Network { url: DEFAULT_RELAY_URL.to_string() });
}

#[test]
fn an_explicit_server_wins() {
    assert_eq!(
        parse_launch(&args(&["--online", "--server", "ws://127.0.0.1:8080"])),
        Launch::Network { url: "ws://127.0.0.1:8080".to_string() }
    );
    assert_eq!(
        parse_launch(&args(&["--server", "ws://a", "--online"])),
        Launch::Network { url: "ws://a".to_string() }
    );
}

#[test]
fn a_trailing_server_flag_forgets_the_server() {
    assert_eq!(parse_launch(&args(&["--server", "ws://a", "--server"])), Launch::SinglePlayer);
    assert_eq!(
        parse_launch(&args(&["--online", "--server"])),
        Launch::Network { url: DEFAULT_RELAY_URL.to_string() }
    );
}

#[test]
fn text_comparison() {
    assert!(same_text("abc", "abc"));
    assert!(!same_text("abc", "abd"));
    assert!(!same_text("abc", "ab"));
    assert!(same_text("", ""));
}
