use isshin::policy::{evaluate, grade, is_acceptable, Fault, MAX_SCORE, MIN_SCORE};
use isshin::store::{CredentialStore, InsertOutcome};
use isshin::user::{authenticate, Credentials};
use isshin::web::auth::{
    conclude, policy_context, register, register_scored, register_status, screen,
    RegisterResponse,
};

fn context(username: &str) -> Vec<String> {
    vec![username.to_string()]
}

fn creds(username: &str, password: &str) -> Credentials {
    Credentials { username: username.to_string(), password: password.to_string() }
}

#[test]
fn threshold_is_three_of_four() {
    assert_eq!(MIN_SCORE, 3);
    assert_eq!(MAX_SCORE, 4);
    assert!(!is_acceptable(0));
    assert!(!is_acceptable(2));
    assert!(is_acceptable(3));
    assert!(is_acceptable(4));
}

#[test]
fn empty_password_scores_zero() {
    assert_eq!(evaluate("", &context("alice")), Ok(0));
    assert_eq!(evaluate("", &Vec::new()), Ok(0));
}

#[test]
fn common_password_scores_low() {
    let score = evaluate("password", &context("alice")).unwrap();
    assert!(score < 3);
    assert_eq!(score, 0);
}

#[test]
fn strong_password_scores_high() {
    let score = evaluate("Tr0ub4dor&3Zq!", &context("alice")).unwrap();
    assert!(score >= 3);
    assert!(score <= 4);
}

#[test]
fn username_in_password_is_penalised() {
    let with_context = evaluate("margaretthatcher", &context("margaretthatcher")).unwrap();
    let without = evaluate("margaretthatcher", &Vec::new()).unwrap();
    assert!(with_context <= without);
    assert!(with_context < 3);
}

#[test]
fn screen_rejects_below_threshold_with_score() {
    assert_eq!(screen(0), Some(RegisterResponse::BadPassword { zxcvbn: 0 }));
    assert_eq!(screen(1), Some(RegisterResponse::BadPassword { zxcvbn: 1 }));
    assert_eq!(screen(2), Some(RegisterResponse::BadPassword { zxcvbn: 2 }));
    assert_eq!(screen(3), None);
    assert_eq!(screen(4), None);
}

#[test]
fn conclude_maps_each_outcome() {
    assert_eq!(conclude(InsertOutcome::Created { id: 7 }), Ok(RegisterResponse::Registered));
    assert_eq!(conclude(InsertOutcome::Conflict), Ok(RegisterResponse::UsernameTaken));
    assert_eq!(conclude(InsertOutcome::Fault), Err(Fault::Storage));
}

#[test]
fn register_status_is_200_or_500() {
    assert_eq!(register_status(&Ok(RegisterResponse::Registered)), 200);
    assert_eq!(register_status(&Ok(RegisterResponse::UsernameTaken)), 200);
    assert_eq!(register_status(&Ok(RegisterResponse::BadPassword { zxcvbn: 1 })), 200);
    assert_eq!(register_status(&Err(Fault::Storage)), 500);
    assert_eq!(register_status(&Err(Fault::Evaluator)), 500);
    assert_eq!(register_status(&Err(Fault::Hashing)), 500);
}

#[test]
fn weak_password_is_rejected_and_nothing_written() {
    let mut store = CredentialStore::new();
    for score in 0u8..3 {
        let r = register_scored(&mut store, &creds("alice", "whatever"), score);
        assert_eq!(r, Ok(RegisterResponse::BadPassword { zxcvbn: score }));
        assert_eq!(store.len(), 0);
    }
}

#[test]
fn register_alice_scenario() {
    let mut store = CredentialStore::new();
    let weak = register(&mut store, &creds("alice", "password"));
    assert!(matches!(weak, Ok(RegisterResponse::BadPassword { .. })));
    assert_eq!(weak, Ok(RegisterResponse::BadPassword { zxcvbn: 0 }));
    assert_eq!(store.len(), 0);
    assert!(store.find(&"alice".to_string()).is_none());

    let strong = register(&mut store, &creds("alice", "Tr0ub4dor&3Zq!"));
    assert_eq!(strong, Ok(RegisterResponse::Registered));
    assert_eq!(store.len(), 1);
    let row = store.find(&"alice".to_string()).unwrap();
    assert_eq!(row.id, 1);
    assert_eq!(row.username, "alice");
}

#[test]
fn register_empty_password_is_bad_password_zero() {
    let mut store = CredentialStore::new();
    let r = register(&mut store, &creds("alice", ""));
    assert_eq!(r, Ok(RegisterResponse::BadPassword { zxcvbn: 0 }));
    assert_eq!(store.len(), 0);
}

#[test]
fn same_username_twice_is_taken() {
    let mut store = CredentialStore::new();
    let first = register(&mut store, &creds("bob", "Tr0ub4dor&3Zq!"));
    let second = register(&mut store, &creds("bob", "c0rrect-H0rse-battery-staple"));
    assert_eq!(first, Ok(RegisterResponse::Registered));
    assert_eq!(second, Ok(RegisterResponse::UsernameTaken));
    assert_eq!(store.len(), 1);
    assert!(authenticate(&store, &creds("bob", "Tr0ub4dor&3Zq!")).is_some());
    assert!(authenticate(&store, &creds("bob", "c0rrect-H0rse-battery-staple")).is_none());
}

#[test]
fn many_attempts_one_winner() {
    let mut store = CredentialStore::new();
    let mut registered = 0;
    let mut taken = 0;
    for _ in 0..5 {
        match register_scored(&mut store, &creds("carol", "some password"), 4) {
            Ok(RegisterResponse::Registered) => registered += 1,
            Ok(RegisterResponse::UsernameTaken) => taken += 1,
            other => panic!("unexpected answer {:?}", other),
        }
    }
    assert_eq!(registered, 1);
    assert_eq!(taken, 4);
    assert_eq!(store.len(), 1);
}

#[test]
fn weak_password_for_taken_username_is_still_bad_password() {
    let mut store = CredentialStore::new();
    assert_eq!(
        register_scored(&mut store, &creds("dave", "pw one"), 3),
        Ok(RegisterResponse::Registered)
    );
    assert_eq!(
        register_scored(&mut store, &creds("dave", "pw two"), 2),
        Ok(RegisterResponse::BadPassword { zxcvbn: 2 })
    );
}

#[test]
fn exhausted_ids_are_a_storage_fault() {
    let mut store = CredentialStore::new();
    store.replace(i64::MAX, "last".to_string(), "hash".to_string());
    let r = register_scored(&mut store, &creds("erin", "some password"), 4);
    assert_eq!(r, Err(Fault::Storage));
    assert_eq!(store.len(), 1);
    let again = register_scored(&mut store, &creds("last", "some password"), 4);
    assert_eq!(again, Ok(RegisterResponse::UsernameTaken));
}

#[test]
fn stored_hash_is_not_the_password() {
    let mut store = CredentialStore::new();
    let password = "Tr0ub4dor&3Zq!";
    assert_eq!(
        register_scored(&mut store, &creds("frank", password), 4),
        Ok(RegisterResponse::Registered)
    );
    let row = store.find(&"frank".to_string()).unwrap();
    assert_ne!(row.password_hash, password);
    assert!(row.password_hash.starts_with("$argon2"));
}

#[test]
fn grade_keeps_score_and_hides_failure() {
    for score in 0u8..=4 {
        assert_eq!(grade(Ok(score)), Ok(score));
    }
    assert_eq!(grade(Err(zxcvbn::ZxcvbnError::BlankPassword)), Err(Fault::Evaluator));
    assert_eq!(grade(Err(zxcvbn::ZxcvbnError::DurationOutOfRange)), Err(Fault::Evaluator));
}

#[test]
fn policy_context_is_the_username_alone() {
    assert_eq!(policy_context(&creds("alice", "Tr0ub4dor&3Zq!")), vec!["alice".to_string()]);
    assert_eq!(policy_context(&creds("", "x")), vec![String::new()]);
}

#[test]
fn register_scores_against_the_username() {
    let mut store = CredentialStore::new();
    let name = "qzjxvkwpyhmg";
    let alone = evaluate(name, &Vec::new()).unwrap();
    let with_name = evaluate(name, &policy_context(&creds(name, name))).unwrap();
    assert!(alone >= 3);
    assert!(with_name < 3);
    let r = register(&mut store, &creds(name, name));
    assert_eq!(r, Ok(RegisterResponse::BadPassword { zxcvbn: with_name }));
    assert_eq!(store.len(), 0);
    let other = register(&mut store, &creds("someone else", name));
    assert_eq!(other, Ok(RegisterResponse::Registered));
}
