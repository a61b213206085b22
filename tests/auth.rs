use kit_inventory::auth::{bearer_token, Accounts, Claims};
use kit_inventory::error::StoreError;

#[test]
fn claims_expiry_exact() {
    let c = Claims::issued_at(7, 24, 1_000);
    assert_eq!(c, Claims { sub: 7, iat: 1_000, exp: 1_000 + 24 * 3600 });
    let far = Claims::issued_at(7, i64::MAX, 5);
    assert_eq!(far.exp, i64::MAX);
    let back = Claims::issued_at(7, i64::MIN, -5);
    assert_eq!(back.exp, i64::MIN);
}

#[test]
fn claims_validity_window() {
    let c = Claims::issued_at(1, 1, 100);
    assert!(c.is_valid_at(100));
    assert!(c.is_valid_at(3699));
    assert!(!c.is_valid_at(3700));
    assert!(!c.is_valid_at(99));
    assert!(!c.is_expired_at(3700));
    assert!(c.is_expired_at(3701));
}

#[test]
fn claims_for_a_day() {
    let c = Claims::issued_at(3, 24, 1_700_000_000);
    assert_eq!(c.sub, 3);
    assert_eq!(c.exp - c.iat, 24 * 3600);
    assert!(c.is_valid_at(1_700_000_001));
    assert!(!c.is_expired_at(1_700_000_001));
    let old = Claims::issued_at(3, 1, 0);
    assert!(old.is_expired_at(1_700_000_000));
    assert!(!old.is_valid_at(1_700_000_000));
}

#[test]
fn bearer_header_parsing() {
    assert_eq!(bearer_token("Bearer abc.def"), Some(String::from("abc.def")));
    assert_eq!(bearer_token("Bearer "), Some(String::new()));
    assert_eq!(bearer_token("Basic abc"), None);
    assert_eq!(bearer_token("bearer abc"), None);
    assert_eq!(bearer_token("Bearer"), None);
}

#[test]
fn usernames_are_unique() {
    let mut acc = Accounts::new();
    let u = acc.create_user("amuro", "hash", 10).unwrap();
    assert_eq!(u.id, 1);
    assert_eq!(u.role, "user");
    assert_eq!(acc.create_user("amuro", "other", 11).err().map(|e| e), Some(StoreError::Conflict));
    assert!(acc.find_by_username("amuro").is_some());
    assert!(acc.find_by_username("char").is_none());
    let shown = acc.get_user_by_id(1).unwrap();
    assert_eq!(shown.username, "amuro");
    assert_eq!(acc.get_user_by_id(2).err(), Some(StoreError::NotFound));
}

#[test]
fn register_then_login() {
    let mut acc = Accounts::new();
    let u = acc.register("char", "red-comet", 5).unwrap();
    assert_ne!(u.password_hash, "red-comet");
    assert_eq!(acc.authenticate("char", "red-comet"), Ok(u.id));
    assert_eq!(acc.authenticate("char", "wrong"), Err(StoreError::ValidationFailure));
    assert_eq!(acc.authenticate("nobody", "x"), Err(StoreError::NotFound));
    assert_eq!(acc.register("char", "again", 6).err().map(|e| e), Some(StoreError::Conflict));
    let other = acc.register("garma", "zabi", 7).unwrap();
    assert_ne!(other.password_hash, u.password_hash);
    assert_eq!(acc.authenticate("garma", "red-comet"), Err(StoreError::ValidationFailure));
}

#[test]
fn unparsable_hash_matches_nothing() {
    let mut acc = Accounts::new();
    acc.create_user("sayla", "not-a-phc-string", 1).unwrap();
    assert_eq!(acc.authenticate("sayla", "not-a-phc-string"), Err(StoreError::ValidationFailure));
}
