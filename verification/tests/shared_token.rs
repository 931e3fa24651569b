use reversi::netplay_client::SharedToken;
use reversi::netplay_protocol::{DEV_KEY_ID, DEV_TOKEN};

#[test]
fn from_spec_parses_id_and_token() {
    let t = SharedToken::from_spec("2:9f3c").expect("valid spec");
    assert_eq!(t.key_id, 2);
    assert_eq!(t.token, "9f3c");
}

#[test]
fn from_spec_keeps_colons_in_the_token() {
    let t = SharedToken::from_spec("7:ab:cd").expect("valid spec");
    assert_eq!(t.key_id, 7);
    assert_eq!(t.token, "ab:cd");
}

#[test]
fn from_spec_rejects_malformed() {
    assert!(SharedToken::from_spec("no-colon").is_none());
    assert!(SharedToken::from_spec("notanumber:tok").is_none());
}

#[test]
fn from_spec_trims_the_id_and_bounds_it() {
    let t = SharedToken::from_spec(" 12 :x").expect("valid spec");
    assert_eq!(t.key_id, 12);
    assert_eq!(t.token, "x");
    let t = SharedToken::from_spec("+65535:").expect("valid spec");
    assert_eq!(t.key_id, 65535);
    assert_eq!(t.token, "");
    assert!(SharedToken::from_spec("65536:x").is_none());
    assert!(SharedToken::from_spec(":x").is_none());
    assert!(SharedToken::from_spec("-1:x").is_none());
}

#[test]
fn dev_token_is_the_development_default() {
    let t = SharedToken::dev();
    assert_eq!(t.key_id, DEV_KEY_ID);
    assert_eq!(t.token, DEV_TOKEN);
    let c = t.credential();
    assert_eq!(c.key_id, 1);
    assert_eq!(c.token, "reversi-dev-token");
}
