use lessons::account::Account;
use lessons::account::AccountID;
use lessons::account::Registration;
use lessons::account::RegistrationAction;
use lessons::account::RegistrationError;
use lessons::account::RegistrationEvent;
use lessons::account::HASH_COST;
use lessons::error::APIError;
use lessons::permission::AuthzError;
use lessons::store::ServiceError;

fn started() -> Registration {
    Account::register(
        "Ada".to_string(),
        Some("Lovelace".to_string()),
        "ada".to_string(),
        "correct horse".to_string(),
    )
    .unwrap()
}

fn hash_of(state: &Registration) -> String {
    match state {
        Registration::Beginning(account) => account.password_hash.clone(),
        other => panic!("{:?}", other),
    }
}

#[test]
fn register_hashes_the_password() {
    let state = started();
    let hash = hash_of(&state);
    assert_ne!(hash, "correct horse");
    assert_eq!(hash.chars().count(), 60);
    assert!(hash.starts_with("$2b$08$"));
    assert_eq!(HASH_COST, 8);
    assert!(bcrypt::verify("correct horse", &hash).unwrap());
    assert!(!bcrypt::verify("wrong horse", &hash).unwrap());
    match &state {
        Registration::Beginning(account) => {
            assert_eq!(account.first_name, "Ada");
            assert_eq!(account.last_name, Some("Lovelace".to_string()));
            assert_eq!(account.login, "ada");
        }
        other => panic!("{:?}", other),
    }
    assert!(matches!(state.due(), RegistrationAction::Begin));
}

#[test]
fn begin_passes_a_hashing_error_on() {
    let res = Registration::begin(
        "Ada".to_string(),
        None,
        "ada".to_string(),
        Err(bcrypt::BcryptError::CostNotAllowed(3)),
    );
    assert!(matches!(
        res,
        Err(RegistrationError::Bcrypt(bcrypt::BcryptError::CostNotAllowed(3)))
    ));
    let res = Registration::begin(
        "Ada".to_string(),
        None,
        "ada".to_string(),
        Ok("hash".to_string()),
    );
    match res {
        Ok(Registration::Beginning(account)) => {
            assert_eq!(account.password_hash, "hash");
            assert_eq!(account.last_name, None);
        }
        other => panic!("{:?}", other),
    }
}

#[test]
fn a_registration_runs_through_its_steps() {
    let state = started();
    let hash = hash_of(&state);
    let (state, action) = state.step(RegistrationEvent::Began);
    assert!(matches!(state, Registration::Counting(_)));
    assert!(matches!(action, RegistrationAction::CountLogin));
    let (state, action) = state.step(RegistrationEvent::Counted(0));
    assert!(matches!(state, Registration::Inserting(_)));
    assert!(matches!(action, RegistrationAction::Insert));
    let (state, action) = state.step(RegistrationEvent::Inserted(AccountID(77)));
    assert!(matches!(state, Registration::Committing(_)));
    assert!(matches!(action, RegistrationAction::Commit));
    let (state, action) = state.step(RegistrationEvent::Committed);
    assert!(matches!(state, Registration::Finished));
    match action {
        RegistrationAction::Finish(Ok(account)) => assert_eq!(
            account,
            Account {
                id: AccountID(77),
                first_name: "Ada".to_string(),
                last_name: Some("Lovelace".to_string()),
                login: "ada".to_string(),
                password_hash: hash,
            }
        ),
        other => panic!("{:?}", other),
    }
    let (state, action) = state.step(RegistrationEvent::Committed);
    assert!(matches!(state, Registration::Finished));
    assert!(matches!(action, RegistrationAction::Stop));
}

#[test]
fn a_login_that_is_taken_ends_the_registration() {
    for count in [1i64, 2, 17, i64::MAX] {
        let (state, _) = started().step(RegistrationEvent::Began);
        let (state, action) = state.step(RegistrationEvent::Counted(count));
        assert!(matches!(state, Registration::Finished));
        assert!(matches!(
            action,
            RegistrationAction::Finish(Err(RegistrationError::LoginNotUnique))
        ));
    }
}

#[test]
fn a_login_that_is_free_lets_the_registration_go_on() {
    for count in [0i64, -1, i64::MIN] {
        let (state, _) = started().step(RegistrationEvent::Began);
        let (state, action) = state.step(RegistrationEvent::Counted(count));
        assert!(matches!(state, Registration::Inserting(_)));
        assert!(matches!(action, RegistrationAction::Insert));
    }
}

fn registered(password: &str) -> Account {
    let state = Account::register(
        "Ada".to_string(),
        None,
        "ada".to_string(),
        password.to_string(),
    )
    .unwrap();
    let (state, _) = state.step(RegistrationEvent::Began);
    let (state, _) = state.step(RegistrationEvent::Counted(0));
    let (state, _) = state.step(RegistrationEvent::Inserted(AccountID(9)));
    match state.step(RegistrationEvent::Committed) {
        (_, RegistrationAction::Finish(Ok(account))) => account,
        other => panic!("{:?}", other),
    }
}

#[test]
fn an_account_has_the_password_that_it_was_registered_with() {
    let account = registered("correct horse");
    assert!(account.has_password("correct horse"));
    assert!(!account.has_password("wrong horse"));
    assert!(!account.has_password(""));
    assert!(!account.has_password(&account.password_hash));
}

#[test]
fn an_account_with_an_unreadable_hash_has_no_password() {
    let mut account = registered("correct horse");
    account.password_hash = "correct horse".to_string();
    assert!(!account.has_password("correct horse"));
    account.password_hash = String::new();
    assert!(!account.has_password(""));
}

#[test]
fn authenticate_asks_for_an_account_and_its_password() {
    let found = Some(registered("correct horse"));
    assert_eq!(Account::authenticate(&found, "correct horse"), Some(AccountID(9)));
    assert_eq!(Account::authenticate(&found, "wrong horse"), None);
    assert_eq!(Account::authenticate(&None, "correct horse"), None);
}

#[test]
fn a_long_password_is_taken_by_its_first_72_bytes_in_hashing_and_checking() {
    let long = "x".repeat(100);
    let account = registered(&long);
    assert!(account.has_password(&long));
    assert!(account.password_hash.starts_with("$2b$08$"));
    assert_eq!(account.password_hash.len(), 60);
}

#[test]
fn a_failed_step_ends_the_registration_with_the_databases_error() {
    let (state, action) = started().step(RegistrationEvent::Failed(sqlx::Error::PoolClosed));
    assert!(matches!(state, Registration::Finished));
    assert!(matches!(
        action,
        RegistrationAction::Finish(Err(RegistrationError::Database(sqlx::Error::PoolClosed)))
    ));
    let (state, _) = started().step(RegistrationEvent::Began);
    let (state, _) = state.step(RegistrationEvent::Counted(0));
    let (state, _) = state.step(RegistrationEvent::Inserted(AccountID(1)));
    let (state, action) = state.step(RegistrationEvent::Failed(sqlx::Error::RowNotFound));
    assert!(matches!(state, Registration::Finished));
    assert!(matches!(
        action,
        RegistrationAction::Finish(Err(RegistrationError::Database(sqlx::Error::RowNotFound)))
    ));
}

#[test]
fn an_event_that_is_not_awaited_changes_nothing() {
    let (state, action) = started().step(RegistrationEvent::Counted(1));
    assert!(matches!(state, Registration::Beginning(_)));
    assert!(matches!(action, RegistrationAction::Begin));
    let (state, _) = state.step(RegistrationEvent::Began);
    let (state, action) = state.step(RegistrationEvent::Committed);
    assert!(matches!(state, Registration::Counting(_)));
    assert!(matches!(action, RegistrationAction::CountLogin));
    let (state, _) = state.step(RegistrationEvent::Counted(0));
    let (state, action) = state.step(RegistrationEvent::Began);
    assert!(matches!(state, Registration::Inserting(_)));
    assert!(matches!(action, RegistrationAction::Insert));
    let (state, _) = state.step(RegistrationEvent::Inserted(AccountID(5)));
    let (state, action) = state.step(RegistrationEvent::Inserted(AccountID(6)));
    match state {
        Registration::Committing(account) => assert_eq!(account.id, AccountID(5)),
        other => panic!("{:?}", other),
    }
    assert!(matches!(action, RegistrationAction::Commit));
}

#[test]
fn registration_errors_have_their_words() {
    assert_eq!(RegistrationError::LoginNotUnique.message(), "Login is no unique");
    assert_eq!(
        RegistrationError::Database(sqlx::Error::RowNotFound).message(),
        sqlx::Error::RowNotFound.to_string()
    );
    assert_eq!(
        RegistrationError::Bcrypt(bcrypt::BcryptError::CostNotAllowed(3)).message(),
        "Cost needs to be between 4 and 31, got 3"
    );
}

#[test]
fn registration_errors_become_api_errors() {
    assert!(matches!(
        APIError::from(RegistrationError::LoginNotUnique),
        APIError::LoginAlreadyPresent
    ));
    assert!(matches!(
        APIError::from(RegistrationError::Database(sqlx::Error::RowNotFound)),
        APIError::Database(sqlx::Error::RowNotFound)
    ));
    assert!(matches!(
        APIError::from(RegistrationError::Bcrypt(bcrypt::BcryptError::InvalidSaltLen(2))),
        APIError::Hashing(bcrypt::BcryptError::InvalidSaltLen(2))
    ));
}

#[test]
fn refusals_and_failures_become_api_errors() {
    assert!(matches!(APIError::from(AuthzError::NotFound), APIError::AccessDenied));
    assert!(matches!(APIError::from(AuthzError::Insufficient), APIError::AccessDenied));
    assert!(matches!(APIError::from(ServiceError::NotFound), APIError::LessonDosNotExist));
    assert!(matches!(APIError::from(ServiceError::Forbidden), APIError::AccessDenied));
    assert!(matches!(
        APIError::from(ServiceError::AlreadyExists),
        APIError::LessonAlreadyPresent
    ));
}
