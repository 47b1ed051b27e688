use isshin::policy::Fault;
use isshin::store::{CredentialStore, InsertOutcome};
use isshin::user::{
    authenticate, authenticate_found, bootstrap_admin, check_account, hash_password, Account,
    Credentials, ADMIN_ID,
};

fn creds(username: &str, password: &str) -> Credentials {
    Credentials { username: username.to_string(), password: password.to_string() }
}

#[test]
fn insert_assigns_ids_in_order() {
    let mut store = CredentialStore::new();
    assert_eq!(store.len(), 0);
    assert_eq!(store.insert("a".to_string(), "h1".to_string()), InsertOutcome::Created { id: 1 });
    assert_eq!(store.insert("b".to_string(), "h2".to_string()), InsertOutcome::Created { id: 2 });
    assert_eq!(store.insert("a".to_string(), "h3".to_string()), InsertOutcome::Conflict);
    assert_eq!(store.len(), 2);
    let a = store.find(&"a".to_string()).unwrap();
    assert_eq!((a.id, a.password_hash.as_str()), (1, "h1"));
    let b = store.find(&"b".to_string()).unwrap();
    assert_eq!((b.id, b.password_hash.as_str()), (2, "h2"));
    assert!(store.find(&"c".to_string()).is_none());
}

#[test]
fn usernames_match_exactly() {
    let mut store = CredentialStore::new();
    store.insert("Alice".to_string(), "h".to_string());
    assert!(store.find(&"alice".to_string()).is_none());
    assert!(store.find(&"Alice ".to_string()).is_none());
    assert!(store.find(&"Alice".to_string()).is_some());
    assert_eq!(
        store.insert("alice".to_string(), "h".to_string()),
        InsertOutcome::Created { id: 2 }
    );
}

#[test]
fn insert_after_top_id_is_a_fault() {
    let mut store = CredentialStore::new();
    store.replace(i64::MAX, "z".to_string(), "h".to_string());
    assert_eq!(store.insert("y".to_string(), "h".to_string()), InsertOutcome::Fault);
    assert_eq!(store.insert("z".to_string(), "h".to_string()), InsertOutcome::Conflict);
    assert_eq!(store.len(), 1);
}

#[test]
fn replace_removes_rows_with_same_id_or_name() {
    let mut store = CredentialStore::new();
    store.insert("first".to_string(), "h1".to_string());
    store.insert("admin".to_string(), "h2".to_string());
    store.insert("third".to_string(), "h3".to_string());
    store.replace(1, "admin".to_string(), "h4".to_string());
    assert_eq!(store.len(), 2);
    assert!(store.find(&"first".to_string()).is_none());
    let third = store.find(&"third".to_string()).unwrap();
    assert_eq!(third.id, 3);
    let admin = store.find(&"admin".to_string()).unwrap();
    assert_eq!((admin.id, admin.password_hash.as_str()), (1, "h4"));
    assert_eq!(store.insert("next".to_string(), "h".to_string()), InsertOutcome::Created { id: 4 });
}

#[test]
fn bootstrap_admin_scenario() {
    let mut store = CredentialStore::new();
    assert_eq!(bootstrap_admin(&mut store, Some("hunter2xyz")), Ok(true));
    assert_eq!(store.len(), 1);
    let admin = store.find(&"admin".to_string()).unwrap();
    assert_eq!(admin.id, 1);
    assert_eq!(admin.id, ADMIN_ID);
    assert_ne!(admin.password_hash, "hunter2xyz");
    let identity = authenticate(&store, &creds("admin", "hunter2xyz")).unwrap();
    assert_eq!(identity.id, 1);
    assert_eq!(identity.username, "admin");
    for other in ["hunter2xy", "hunter2xyz ", "Hunter2xyz", "", "hunter2xyzz"] {
        assert!(authenticate(&store, &creds("admin", other)).is_none());
    }
}

#[test]
fn bootstrap_is_idempotent_and_optional() {
    let mut store = CredentialStore::new();
    assert_eq!(bootstrap_admin(&mut store, None), Ok(false));
    assert_eq!(store.len(), 0);
    assert_eq!(bootstrap_admin(&mut store, Some("hunter2xyz")), Ok(true));
    store.insert("user".to_string(), "h".to_string());
    assert_eq!(bootstrap_admin(&mut store, Some("another secret")), Ok(true));
    assert_eq!(store.len(), 2);
    assert_eq!(store.find(&"admin".to_string()).unwrap().id, 1);
    assert_eq!(store.find(&"user".to_string()).unwrap().id, 2);
    assert!(authenticate(&store, &creds("admin", "another secret")).is_some());
    assert!(authenticate(&store, &creds("admin", "hunter2xyz")).is_none());
}

#[test]
fn authenticate_right_wrong_unknown() {
    let mut store = CredentialStore::new();
    let hash = hash_password("s3cret-Passphrase").unwrap();
    assert_eq!(
        store.insert("gina".to_string(), hash),
        InsertOutcome::Created { id: 1 }
    );
    let ok = authenticate(&store, &creds("gina", "s3cret-Passphrase")).unwrap();
    assert_eq!((ok.id, ok.username.as_str()), (1, "gina"));
    let wrong = authenticate(&store, &creds("gina", "s3cret-passphrase"));
    let unknown = authenticate(&store, &creds("nobody", "s3cret-Passphrase"));
    assert!(wrong.is_none());
    assert!(unknown.is_none());
    assert_eq!(format!("{:?}", wrong), format!("{:?}", unknown));
}

#[test]
fn hash_password_salts_each_hash() {
    let one = hash_password("password").unwrap();
    let two = hash_password("password").unwrap();
    assert_ne!(one, "password");
    assert_ne!(one, two);
}

#[test]
fn check_account_against_known_hash() {
    let account = Account {
        id: 9,
        username: "known".to_string(),
        password_hash: "$argon2i$v=19$m=65536,t=1,p=1$c29tZXNhbHQAAAAAAAAAAA$+r0d29hqEB0yasKr55ZgICsQGSkl0v0kgwhd+U3wyRo".to_string(),
    };
    let identity = check_account(Some(&account), "password").unwrap();
    assert_eq!((identity.id, identity.username.as_str()), (9, "known"));
    assert!(check_account(Some(&account), "bogus").is_none());
    assert!(check_account(None, "password").is_none());
}

#[test]
fn malformed_hash_matches_nothing() {
    let account = Account { id: 1, username: "u".to_string(), password_hash: "password".to_string() };
    assert!(check_account(Some(&account), "password").is_none());
    assert!(check_account(Some(&account), "").is_none());
}

#[test]
fn storage_fault_is_not_no_identity() {
    let r = authenticate_found(Err(Fault::Storage), "pw");
    assert!(matches!(r, Err(Fault::Storage)));
    let none = authenticate_found(Ok(None), "pw");
    assert!(matches!(none, Ok(None)));
    let account = Account {
        id: 3,
        username: "h".to_string(),
        password_hash: hash_password("pw-of-h").unwrap(),
    };
    let found = authenticate_found(Ok(Some(account.clone())), "pw-of-h").unwrap().unwrap();
    assert_eq!((found.id, found.username.as_str()), (3, "h"));
    assert!(matches!(authenticate_found(Ok(Some(account)), "nope"), Ok(None)));
}
