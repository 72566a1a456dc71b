use aes::cipher::block_padding::Pkcs7;
use aes::cipher::{BlockDecryptMut, KeyIvInit};
use pronote_client::bootstrap::{extract_session_id, BootstrapError};
use pronote_client::client::{APIClient, Action, ConnectError, Credentials, Event, HandshakeState};
use pronote_client::codec::{encrypt, EncryptArgs, EncryptionError, KeyMaterial};
use pronote_client::counter::SequenceCounter;
use pronote_client::envelope::{make_order_token, FunctionCall, Session};

const EMPTY_MD5: [u8; 16] = [
    0xd4, 0x1d, 0x8c, 0xd9, 0x8f, 0x00, 0xb2, 0x04, 0xe9, 0x80, 0x09, 0x98, 0xec, 0xf8, 0x42, 0x7e,
];

fn decrypt(key: &[u8], iv: &[u8], data: &[u8]) -> Vec<u8> {
    cbc::Decryptor::<aes::Aes128>::new_from_slices(key, iv)
        .unwrap()
        .decrypt_padded_vec_mut::<Pkcs7>(data)
        .unwrap()
}

fn decrypt_token(token: &str) -> String {
    let bytes = hex::decode(token).unwrap();
    String::from_utf8(decrypt(&EMPTY_MD5, &EMPTY_MD5, &bytes)).unwrap()
}

fn token_of_url(url: &str) -> String {
    url.rsplit('/').next().unwrap().to_string()
}

#[test]
fn ciphertext_length_is_next_block_multiple() {
    let key = [7u8; 16];
    let iv = [9u8; 16];
    for len in [0usize, 1, 15, 16, 17, 31, 32, 100] {
        let data = EncryptArgs::Bytes(vec![0x41; len]);
        let c = encrypt(&key, &iv, &data).unwrap();
        assert_eq!(c.len(), (len / 16 + 1) * 16);
    }
}

#[test]
fn encryption_is_deterministic() {
    let key = [1u8; 16];
    let iv = [2u8; 16];
    let a = encrypt(&key, &iv, &EncryptArgs::String("12345".to_string())).unwrap();
    let b = encrypt(&key, &iv, &EncryptArgs::String("12345".to_string())).unwrap();
    assert_eq!(a, b);
    let c = encrypt(&key, &iv, &EncryptArgs::Bytes(b"12345".to_vec())).unwrap();
    assert_eq!(a, c);
}

#[test]
fn encryption_decrypts_back() {
    let key = [3u8; 16];
    let iv = [4u8; 16];
    let c = encrypt(&key, &iv, &EncryptArgs::from("hello world".to_string())).unwrap();
    assert_ne!(c, b"hello world".to_vec());
    assert_eq!(decrypt(&key, &iv, &c), b"hello world".to_vec());
}

#[test]
fn number_is_encrypted_as_decimal_text() {
    let key = [5u8; 16];
    let iv = [6u8; 16];
    let c = encrypt(&key, &iv, &EncryptArgs::from(4096u32)).unwrap();
    assert_eq!(decrypt(&key, &iv, &c), b"4096".to_vec());
}

#[test]
fn wrong_key_or_iv_length_is_refused() {
    let data = EncryptArgs::from(vec![1u8, 2, 3]);
    assert_eq!(encrypt(&[0u8; 15], &[0u8; 16], &data), Err(EncryptionError::InvalidKeyLength));
    assert_eq!(encrypt(&[0u8; 16], &[0u8; 17], &data), Err(EncryptionError::InvalidIvLength));
}

#[test]
fn initial_material_is_md5_of_empty_input() {
    let m = KeyMaterial::initial();
    assert_eq!(m.key, EMPTY_MD5.to_vec());
    assert_eq!(m.iv, EMPTY_MD5.to_vec());
    assert!(KeyMaterial::from_parts(vec![0; 16], vec![0; 15]).is_none());
}

#[test]
fn counter_draws_contiguous_distinct_values() {
    let mut c = SequenceCounter::new();
    let drawn: Vec<u32> = (0..6).map(|_| c.next()).collect();
    assert_eq!(drawn, vec![1, 2, 3, 4, 5, 6]);
    assert!(c.can_draw());
}

#[test]
fn session_id_after_marker() {
    let page = "<script>var x = {h:'1234567',a:3};</script>";
    assert_eq!(extract_session_id(page), Ok(1234567));
}

#[test]
fn session_id_uses_first_marker_and_seven_digits() {
    assert_eq!(extract_session_id("h:'0000042h:'9999999"), Ok(42));
    assert_eq!(extract_session_id("xxh:'12345678"), Ok(1234567));
}

#[test]
fn session_id_marker_missing() {
    assert_eq!(extract_session_id("<html>no session here</html>"), Err(BootstrapError::MarkerNotFound));
    assert_eq!(extract_session_id(""), Err(BootstrapError::MarkerNotFound));
    assert_eq!(extract_session_id("h:"), Err(BootstrapError::MarkerNotFound));
}

#[test]
fn session_id_malformed() {
    assert_eq!(extract_session_id("h:'123"), Err(BootstrapError::MalformedSessionId));
    assert_eq!(extract_session_id("h:'12a4567"), Err(BootstrapError::MalformedSessionId));
    assert_eq!(extract_session_id("h:'+123456"), Err(BootstrapError::MalformedSessionId));
}

#[test]
fn envelope_for_session_42() {
    let mut session = Session::new(42, KeyMaterial::initial(), "https://portal.example/pronote".to_string());
    let call = FunctionCall { name: "FonctionParametres".to_string(), fields: "\"a\": 1".to_string() };
    let e = session.build(&call).unwrap();
    let prefix = "https://portal.example/pronote/appelfonction/3/42/";
    assert!(e.url.starts_with(prefix));
    let token = &e.url[prefix.len()..];
    assert_eq!(token.len(), 32);
    assert!(token.chars().all(|c| c.is_ascii_hexdigit() && !c.is_ascii_uppercase()));
    assert_eq!(decrypt_token(token), "1");
    assert_eq!(
        e.body,
        format!(
            "{{\"session\": 42, \"numeroOrdre\": \"{}\", \"nom\": \"FonctionParametres\", \"donneesSec\": {{\"donnees\": {{\"a\": 1}}}}}}",
            token
        )
    );
    assert_eq!(session.sequence.drawn_count(), 1);
}

#[test]
fn envelope_escapes_function_name() {
    let mut session = Session::new(7, KeyMaterial::initial(), "r".to_string());
    let call = FunctionCall { name: "a\"b\\c\n".to_string(), fields: String::new() };
    let e = session.build(&call).unwrap();
    assert!(e.body.contains("\"nom\": \"a\\\"b\\\\c\\u000a\""));
}

#[test]
fn order_token_is_hex_of_ciphertext() {
    let m = KeyMaterial::initial();
    let token: String = make_order_token(&m, 3).into_iter().collect();
    let expected = encrypt(&EMPTY_MD5, &EMPTY_MD5, &EncryptArgs::from("3".to_string())).unwrap();
    assert_eq!(token, hex::encode(expected));
    assert_ne!(token, "3");
}

fn demo_client() -> APIClient {
    APIClient::with_config(
        "https://demo.example/pronote".to_string(),
        KeyMaterial::initial(),
        [0u8; 16],
        Credentials::demo(),
    )
}

#[test]
fn connect_end_to_end() {
    let mut client = demo_client();
    let mut posts: Vec<(String, String)> = Vec::new();
    let mut action = client.step(Event::Start);
    let mut fetched = false;
    loop {
        action = match action {
            Action::Fetch { url } => {
                assert_eq!(url, "https://demo.example/pronote/eleve.html");
                fetched = true;
                client.step(Event::EntryPage("<script>Start({h:'7654321',a:3})</script>".to_string()))
            },
            Action::Post(e) => {
                posts.push((e.url, e.body));
                client.step(Event::Posted)
            },
            Action::Connected => break,
            Action::Failed(e) => panic!("handshake failed: {:?}", e),
        };
    }
    assert!(fetched);
    assert_eq!(client.state, HandshakeState::Identified);
    assert_eq!(client.session.session_id, 7654321);
    assert_eq!(posts.len(), 2);
    let orders: Vec<String> = posts.iter().map(|(u, _)| decrypt_token(&token_of_url(u))).collect();
    assert_eq!(orders, vec!["1".to_string(), "2".to_string()]);
    assert!(posts[0].0.starts_with("https://demo.example/pronote/appelfonction/3/7654321/"));
    assert!(posts[0].1.contains("\"nom\": \"FonctionParametres\""));
    assert!(posts[0].1.contains("\"Uuid\": \"AAAAAAAAAAAAAAAAAAAAAA==\", \"identifiantNav\": \"\""));
    assert!(posts[1].1.contains("\"nom\": \"Identification\""));
    assert!(posts[1].1.contains("\"identifiant\": \"demonstration\""));
    assert!(posts[1].1.contains("\"session\": 7654321"));
}

#[test]
fn connect_fails_without_marker() {
    let mut client = demo_client();
    assert!(matches!(client.step(Event::Start), Action::Fetch { .. }));
    let action = client.step(Event::EntryPage("<html>maintenance</html>".to_string()));
    assert!(matches!(action, Action::Failed(ConnectError::Bootstrap(BootstrapError::MarkerNotFound))));
    assert_eq!(client.state, HandshakeState::Uninitialized);
    assert_eq!(client.session.sequence.drawn_count(), 0);
}

#[test]
fn transport_failure_keeps_state() {
    let mut client = demo_client();
    let _ = client.step(Event::Start);
    let _ = client.step(Event::EntryPage("h:'1111111".to_string()));
    assert_eq!(client.state, HandshakeState::SessionKnown);
    let action = client.step(Event::TransportFailed("connection reset".to_string()));
    assert!(matches!(action, Action::Failed(ConnectError::Transport(ref m)) if m == "connection reset"));
    assert_eq!(client.state, HandshakeState::SessionKnown);
}

#[test]
fn events_out_of_order_are_refused() {
    let mut client = demo_client();
    assert!(matches!(client.step(Event::Posted), Action::Failed(ConnectError::ProtocolState)));
    let _ = client.step(Event::EntryPage("h:'1111111".to_string()));
    assert!(matches!(client.step(Event::Start), Action::Failed(ConnectError::ProtocolState)));
    assert!(matches!(
        client.step(Event::EntryPage("h:'2222222".to_string())),
        Action::Failed(ConnectError::ProtocolState)
    ));
    assert_eq!(client.session.session_id, 1111111);
}

#[test]
fn new_client_starts_uninitialized() {
    let client = APIClient::new();
    assert_eq!(client.state, HandshakeState::Uninitialized);
    assert_eq!(client.key_aes, [0u8; 16]);
    assert_eq!(client.entry_url(), "https://demo.index-education.net/pronote/eleve.html");
    let c = client.encrypt(&EncryptArgs::from(1u32)).unwrap();
    assert_eq!(decrypt(&EMPTY_MD5, &EMPTY_MD5, &c), b"1".to_vec());
}
