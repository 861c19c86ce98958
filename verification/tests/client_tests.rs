use radiochat::api::{
    handle_server_message, MessagePayload, ServerMessage, ServerMessageEffect,
    SimpleMessagePayload,
};
use radiochat::config::Config;
use radiochat::crypto::{encrypt, generate_key};
use radiochat::ssh::{classify_public_key, get_available_keys, KeySource, SignError, SshKey};
use radiochat::vim::{VimMode, VimState};

#[test]
fn vim_mode_labels() {
    assert_eq!(VimMode::Normal.as_str(), "-- NORMAL --");
    assert_eq!(VimMode::Insert.as_str(), "-- INSERT --");
    assert_eq!(VimMode::Visual.as_str(), "-- VISUAL --");
}

#[test]
fn vim_state_transitions_reset_pending() {
    let mut s = VimState::default();
    assert_eq!(s.mode, VimMode::Normal);
    s.pending_command = Some('d');
    s.count = Some(3);
    s.enter_insert_mode();
    assert_eq!(s.mode, VimMode::Insert);
    assert_eq!(s.pending_command, None);
    assert_eq!(s.count, None);
    s.enter_visual_mode();
    assert_eq!(s.mode, VimMode::Visual);
    s.enter_normal_mode();
    assert_eq!(s.mode, VimMode::Normal);
    s.pending_command = Some('y');
    s.reset();
    assert_eq!(s.pending_command, None);
}

#[test]
fn config_defaults() {
    let c = Config::default();
    assert_eq!(c.server.url, "wss://eurus.sreus.tech/ws");
    assert_eq!(c.auth.token_path, "~/.config/eurus/token");
    assert!(c.ui.show_timestamps);
    assert_eq!(c.ui.message_limit, 1000);
    assert!(!c.ui.multiline_mode);
    assert_eq!(c.network.reconnect_attempts, 10);
    assert_eq!(c.network.ping_interval, 30);
}

#[test]
fn public_key_classification() {
    assert_eq!(classify_public_key("ssh-ed25519 AAAA... user@host"), Some("ed25519"));
    assert_eq!(classify_public_key("ssh-rsa AAAA... user@host"), Some("rsa"));
    assert_eq!(classify_public_key("ecdsa-sha2-nistp256 AAAA..."), None);
    assert_eq!(classify_public_key(""), None);
}

fn key(name: &str) -> SshKey {
    SshKey {
        name: name.to_string(),
        public_key: format!("ssh-ed25519 {}", name),
        key_type: "ed25519".to_string(),
        source: KeySource::Agent,
    }
}

#[test]
fn agent_keys_win_when_present() {
    let (keys, from_agent) = get_available_keys(Ok(vec![key("a")]), vec![key("f")]);
    assert!(from_agent);
    assert_eq!(keys.len(), 1);
    assert_eq!(keys[0].name, "a");
}

#[test]
fn file_keys_used_when_agent_empty_or_absent() {
    let (keys, from_agent) = get_available_keys(Ok(Vec::new()), vec![key("f")]);
    assert!(!from_agent);
    assert_eq!(keys[0].name, "f");
    let (keys, from_agent) =
        get_available_keys(Err("SSH_AUTH_SOCK not set".to_string()), vec![key("g")]);
    assert!(!from_agent);
    assert_eq!(keys[0].name, "g");
}

#[test]
fn sign_error_messages() {
    assert_eq!(
        SignError::FileRead("denied".to_string()).message(),
        "Failed to read key file: denied"
    );
    assert_eq!(SignError::Parse("bad".to_string()).message(), "Failed to parse key: bad");
    assert_eq!(SignError::NeedsPassphrase.message(), "Key is encrypted, passphrase required");
    assert_eq!(SignError::Decrypt("bad".to_string()).message(), "Failed to decrypt key: bad");
    assert_eq!(SignError::Sign("bad".to_string()).message(), "Failed to sign: bad");
}

#[test]
fn server_message_effects() {
    let key = generate_key();
    let ct = encrypt(&key, &b"hi".to_vec()).unwrap();
    let eff =
        handle_server_message(Some(&key), ServerMessage::Message(MessagePayload { ciphertext: ct }));
    assert_eq!(eff, ServerMessageEffect::Append("hi".to_string()));
    let eff = handle_server_message(
        Some(&key),
        ServerMessage::Message(MessagePayload { ciphertext: "junk".to_string() }),
    );
    assert_eq!(
        eff,
        ServerMessageEffect::Append("[DECRYPTION_ERROR] Received invalid message".to_string())
    );
    let eff = handle_server_message(
        None,
        ServerMessage::Message(MessagePayload { ciphertext: "00".to_string() }),
    );
    assert_eq!(eff, ServerMessageEffect::Nothing);
    let eff = handle_server_message(
        None,
        ServerMessage::Info(SimpleMessagePayload { message: "hello".to_string() }),
    );
    assert_eq!(eff, ServerMessageEffect::Append("[SERVER] hello".to_string()));
    let eff = handle_server_message(
        None,
        ServerMessage::Error(SimpleMessagePayload { message: "bad".to_string() }),
    );
    assert_eq!(eff, ServerMessageEffect::Status("[ERROR] bad".to_string()));
}
