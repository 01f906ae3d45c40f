use base64::Engine;
use csfx::login::{encode_ciphertext, encrypt_password, needs_second_factor, public_key_from_pem, LoginError};
use rsa::pkcs1::EncodeRsaPublicKey;

#[test]
fn second_factor_detection() {
    assert!(needs_second_factor("error: 2FA code required"));
    assert!(needs_second_factor("two-factor authentication"));
    assert!(needs_second_factor("{\"error\":\"two_factor_required\"}"));
    assert!(!needs_second_factor("invalid credentials"));
    assert!(!needs_second_factor("2fa"));
}

#[test]
fn ciphertext_is_sent_in_standard_base64() {
    match encode_ciphertext(Ok(vec![1, 2, 3])) {
        Ok(s) => assert_eq!(s, "AQID"),
        Err(_) => panic!("expected text"),
    }
    for bytes in [vec![], vec![0xff], vec![0xfb, 0xff], vec![0, 1, 2, 3, 250, 251, 252]] {
        match encode_ciphertext(Ok(bytes.clone())) {
            Ok(s) => assert_eq!(s, base64::engine::general_purpose::STANDARD.encode(&bytes)),
            Err(_) => panic!("expected text"),
        }
    }
    assert!(matches!(encode_ciphertext(Err(rsa::Error::MessageTooLong)), Err(LoginError::Encryption(rsa::Error::MessageTooLong))));
}

#[test]
fn password_round_trip() {
    let mut rng = rand::thread_rng();
    let private = rsa::RsaPrivateKey::new(&mut rng, 1024).expect("key");
    let public = rsa::RsaPublicKey::from(&private);
    let pem = public.to_pkcs1_pem(rsa::pkcs1::LineEnding::LF).expect("pem");
    let key = match public_key_from_pem(&pem) {
        Ok(k) => k,
        Err(_) => panic!("key should parse"),
    };
    let text = match encrypt_password("s3cret", &key) {
        Ok(t) => t,
        Err(_) => panic!("encryption should work"),
    };
    let ct = base64::engine::general_purpose::STANDARD.decode(text).expect("base64");
    let plain = private.decrypt(rsa::Oaep::new::<sha2::Sha256>(), &ct).expect("decrypt");
    assert_eq!(plain, b"s3cret");
    assert_eq!(ct.len(), 128);
    assert!(ct.len() >= "s3cret".len() + 66);
    assert!(public_key_from_pem("not a key").is_err());
}

#[test]
fn password_too_long_for_the_key() {
    let mut rng = rand::thread_rng();
    let private = rsa::RsaPrivateKey::new(&mut rng, 1024).expect("key");
    let public = rsa::RsaPublicKey::from(&private);
    let long = "p".repeat(128 - 66 + 1);
    assert!(matches!(encrypt_password(&long, &public), Err(LoginError::Encryption(_))));
    let fits = "p".repeat(128 - 66);
    assert!(encrypt_password(&fits, &public).is_ok());
}
