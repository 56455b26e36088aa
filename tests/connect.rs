use pigg::connect_dialog_handler::{
    connect_target, parse_connect_target, ConnectDialog, ConnectDialogMessage, ConnectError,
};
use pigg::version::version;
use iroh_base::key::PublicKey;
use std::str::FromStr;

/// The ed25519 base point, a valid public key, in hexadecimal.
const KEY_HEX: &str = "5866666666666666666666666666666666666666666666666666666666666666";

#[test]
fn valid_hex_key_parses() {
    assert_eq!(KEY_HEX.len(), 64);
    let r = parse_connect_target(KEY_HEX, "");
    let (id, relay) = r.unwrap();
    assert_eq!(id, PublicKey::from_str(KEY_HEX).unwrap());
    assert!(relay.is_none());
}

#[test]
fn key_is_trimmed_and_relay_parsed() {
    let text = format!("  {KEY_HEX}\n");
    let (_, relay) = parse_connect_target(&text, " https://relay.example.org ").unwrap();
    assert!(relay.is_some());
}

#[test]
fn base32_key_parses() {
    let key = PublicKey::from_str(KEY_HEX).unwrap();
    let text = key.to_string();
    assert_eq!(text.len(), 52);
    assert_eq!(parse_connect_target(&text, "").unwrap().0, key);
}

#[test]
fn malformed_identities_fail() {
    let short = &KEY_HEX[..63];
    assert!(matches!(parse_connect_target(short, ""), Err(ConnectError::MalformedIdentity(_))));
    let bad_char = format!("{}g", &KEY_HEX[..63]);
    assert!(matches!(parse_connect_target(&bad_char, ""), Err(ConnectError::MalformedIdentity(_))));
    assert!(matches!(parse_connect_target("hello", ""), Err(ConnectError::MalformedIdentity(_))));
    assert!(matches!(parse_connect_target("   ", ""), Err(ConnectError::EmptyNodeId)));
}

#[test]
fn malformed_relay_fails() {
    assert!(matches!(
        parse_connect_target(KEY_HEX, "not a url"),
        Err(ConnectError::MalformedRelayHint(_))
    ));
}

#[test]
fn connect_target_combines_results() {
    let key = PublicKey::from_str(KEY_HEX).unwrap();
    assert!(matches!(connect_target(Ok(key), None), Ok((_, None))));
    match connect_target(Err("bad".to_string()), None) {
        Err(ConnectError::MalformedIdentity(t)) => assert_eq!(t, "bad"),
        other => panic!("unexpected {other:?}"),
    }
    match connect_target(Ok(key), Some(Err("no".to_string()))) {
        Err(ConnectError::MalformedRelayHint(t)) => assert_eq!(t, "no"),
        other => panic!("unexpected {other:?}"),
    }
}

#[test]
fn dialog_reports_errors_and_reenables() {
    let mut dialog = ConnectDialog::new();
    dialog.update(ConnectDialogMessage::ShowConnectDialog);
    assert!(dialog.show_modal);
    dialog.update(ConnectDialogMessage::NodeIdEntered("abc".into()));
    assert_eq!(dialog.node_id, "abc");
    dialog.show_spinner = true;
    dialog.disable_widgets = true;
    let r = dialog.update(ConnectDialogMessage::ConnectButtonPressed("".into(), "".into()));
    assert!(r.is_none());
    assert_eq!(dialog.iroh_connection_error, "Please Enter Node Id");
    assert!(!dialog.show_spinner && !dialog.disable_widgets);
    dialog.disable_widgets = true;
    let r = dialog.update(ConnectDialogMessage::ConnectButtonPressed("abc".into(), "".into()));
    assert!(r.is_none());
    assert!(!dialog.iroh_connection_error.is_empty());
    assert!(!dialog.disable_widgets);
    let r = dialog.update(ConnectDialogMessage::ConnectButtonPressed(KEY_HEX.into(), "".into()));
    assert!(r.is_some());
    dialog.update(ConnectDialogMessage::ConnectionError("timed out".into()));
    assert_eq!(dialog.iroh_connection_error, "timed out");
    dialog.update(ConnectDialogMessage::RelayURL("https://r.example".into()));
    assert_eq!(dialog.relay_url, "https://r.example");
    dialog.update(ConnectDialogMessage::HideConnectDialog);
    assert!(!dialog.show_modal);
    assert!(dialog.node_id.is_empty() && dialog.relay_url.is_empty());
    assert!(dialog.iroh_connection_error.is_empty());
}

#[test]
fn version_text() {
    let v = version();
    assert_eq!(v.lines().next(), Some("piggui 0.1.0"));
    assert!(v.contains("License Apache-2.0: <https://www.gnu.org/licenses/apache-2.0.html>\n"));
    assert!(v.ends_with("Full source available at: https://github.com/andrewdavidmackenzie/pigg/"));
}
