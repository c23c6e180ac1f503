use base64::Engine;
use base64::engine::general_purpose::STANDARD;
use mail_admin::error::AppError;
use mail_admin::password::{check_password_bytes, ssha1_hash_with_salt, PasswordHasher};
use sha1::Digest;

fn hasher(password: &[u8]) -> PasswordHasher {
    PasswordHasher { encoded_password: STANDARD.encode(password) }
}

fn problem(r: Result<(), AppError>) -> String {
    match r {
        Err(AppError::Unprocessable(m)) => m,
        Ok(()) => panic!("expected a policy violation"),
        Err(_) => panic!("expected unprocessable"),
    }
}

#[test]
fn strong_password_is_accepted() {
    assert!(hasher(b"Passw0rd!").validate().is_ok());
    assert!(hasher("Pässw0rd#é".as_bytes()).validate().is_ok());
}

#[test]
fn empty_or_undecodable_password() {
    assert_eq!(problem(hasher(b"").validate()), "Password cannot be empty");
    let not_base64 = PasswordHasher { encoded_password: "%%%not base64".to_string() };
    assert_eq!(problem(not_base64.validate()), "Password cannot be empty");
}

#[test]
fn short_password() {
    assert_eq!(problem(hasher(b"Pa0!").validate()), "Password must be at least 8 characters long");
}

#[test]
fn invalid_utf8_counts_as_too_short() {
    assert_eq!(problem(hasher(&[0xff; 12]).validate()), "Password must be at least 8 characters long");
}

#[test]
fn length_counts_bytes() {
    // four two-byte characters make eight bytes
    assert_eq!(problem(hasher("éééé".as_bytes()).validate()), "Password must contain at least one uppercase letter");
}

#[test]
fn each_character_class_is_required() {
    assert_eq!(problem(hasher(b"password0!").validate()), "Password must contain at least one uppercase letter");
    assert_eq!(problem(hasher(b"PASSWORD0!").validate()), "Password must contain at least one lowercase letter");
    assert_eq!(problem(hasher(b"Password!!").validate()), "Password must contain at least one digit");
    assert_eq!(problem(hasher(b"Password00").validate()), "Password must contain at least one special character");
    assert_eq!(problem(hasher(b"Pass word0").validate()), "Password must not contain whitespace characters");
}

#[test]
fn bytes_are_checked_directly() {
    assert!(check_password_bytes(b"Secr3t!pw".to_vec()).is_ok());
    assert_eq!(problem(check_password_bytes(Vec::new())), "Password cannot be empty");
}

#[test]
fn ssha1_with_known_salt() {
    let salt = [1u8, 2, 3, 4];
    let mut h = sha1::Sha1::new();
    h.update(b"secret");
    h.update(salt);
    let mut data = h.finalize().to_vec();
    data.extend_from_slice(&salt);
    let expected = format!("{{SSHA}}{}", STANDARD.encode(data));
    assert_eq!(ssha1_hash_with_salt(b"secret", salt), expected);
}

#[test]
fn ssha1_hash_carries_its_salt() {
    let hash = hasher(b"Passw0rd!").generate_ssha1_hash().unwrap();
    assert_eq!(hash.len(), 38);
    assert!(hash.starts_with("{SSHA}"));
    let raw = STANDARD.decode(&hash[6..]).unwrap();
    assert_eq!(raw.len(), 24);
    let mut h = sha1::Sha1::new();
    h.update(b"Passw0rd!");
    h.update(&raw[20..]);
    assert_eq!(h.finalize().to_vec(), raw[..20].to_vec());
}

#[test]
fn bcrypt_hash_verifies() {
    let hash = hasher(b"Passw0rd!").generate_bcrypt_hash().unwrap();
    assert_eq!(hash.len(), 60);
    assert!(hash.starts_with("$2b$12$"));
    assert!(bcrypt::verify(b"Passw0rd!", &hash).unwrap());
}

#[test]
fn bcrypt_hash_is_of_the_decoded_password() {
    let hash = hasher(b"Secr3t!pw").generate_bcrypt_hash().unwrap();
    assert!(bcrypt::verify(b"Secr3t!pw", &hash).unwrap());
    assert!(!bcrypt::verify(b"U2VjcjN0IXB3", &hash).unwrap());
}
