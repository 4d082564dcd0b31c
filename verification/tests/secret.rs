use dp_net::secret::{
    keep_secret, secret_from_environment, secret_from_file, use_environment, SecretAction,
};

const HEX: &str = "000102030405060708090a0b0c0d0e0f101112131415161718191a1b1c1d1eff";

fn key() -> [u8; 32] {
    let mut k = [0u8; 32];
    for i in 0..32 {
        k[i] = i as u8;
    }
    k[31] = 0xff;
    k
}

#[test]
fn environment_comes_first() {
    match secret_from_environment(Some(HEX)) {
        SecretAction::Use(k) => assert_eq!(k, key()),
        other => panic!("{:?}", other),
    }
    assert!(matches!(secret_from_environment(Some("no key")), SecretAction::Fail(_)));
    let padded = format!(" {}", HEX);
    assert!(matches!(secret_from_environment(Some(&padded)), SecretAction::Fail(_)));
    assert!(matches!(secret_from_environment(None), SecretAction::ReadFile));
}

#[test]
fn environment_once_parsed() {
    assert!(matches!(use_environment(Some(Ok(key()))), SecretAction::Use(k) if k == key()));
    let error = "x".parse::<iroh::SecretKey>().unwrap_err();
    assert!(matches!(use_environment(Some(Err(error))), SecretAction::Fail(_)));
    assert!(matches!(use_environment(None), SecretAction::ReadFile));
}

#[test]
fn kept_text_is_hexadecimal() {
    match keep_secret(key()) {
        SecretAction::Save { key: k, hex } => {
            assert_eq!(k, key());
            assert_eq!(hex, HEX);
        }
        other => panic!("{:?}", other),
    }
}

#[test]
fn file_may_hold_white_space() {
    for text in [HEX.to_string(), format!("{}\n", HEX), format!("  {}\r\n", HEX)] {
        assert!(matches!(secret_from_file(Some(&text)), SecretAction::Use(k) if k == key()));
    }
}

#[test]
fn new_key_is_made_and_found_again() {
    for contents in [None, Some("rubbish"), Some("")] {
        match secret_from_file(contents) {
            SecretAction::Save { key, hex } => {
                assert_eq!(hex.len(), 64);
                assert!(matches!(secret_from_file(Some(&hex)), SecretAction::Use(k) if k == key));
            }
            other => panic!("{:?}", other),
        }
    }
}
