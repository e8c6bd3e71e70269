//! Accounts and their registration.
//!
//! Registering an account takes a password hash and four steps of database
//! work. The database work is not done here: a [`Registration`] says which
//! step is due, is told how the step ended, and decides what follows.

use vstd::prelude::*;
use vstd::std_specs::convert::FromSpecImpl;

use crate::error::APIError;
use crate::text::text_view;

verus! {

/// The identity of an account.
#[derive(Clone, Copy, Debug, PartialEq, Eq, Structural, Hash)]
pub struct AccountID(pub u128);

/// The cost that passwords are hashed with.
pub const HASH_COST: u32 = 8;

/// An account.
#[derive(Debug, PartialEq, Eq)]
pub struct Account {
    /// The account's identity.
    pub id: AccountID,
    /// The holder's first name.
    pub first_name: String,
    /// The holder's last name, if one was given.
    pub last_name: Option<String>,
    /// The name that the holder logs in with.
    pub login: String,
    /// The hash of the holder's password.
    pub password_hash: String,
}

/// What an [`Account`] holds.
pub struct SpecAccount {
    /// The account's identity.
    pub id: AccountID,
    /// The holder's first name.
    pub first_name: Seq<char>,
    /// The holder's last name, if one was given.
    pub last_name: Option<Seq<char>>,
    /// The name that the holder logs in with.
    pub login: Seq<char>,
    /// The hash of the holder's password.
    pub password_hash: Seq<char>,
}

impl View for Account {
    type V = SpecAccount;

    open spec fn view(&self) -> SpecAccount {
        SpecAccount {
            id: self.id,
            first_name: self.first_name@,
            last_name: text_view(self.last_name),
            login: self.login@,
            password_hash: self.password_hash@,
        }
    }
}

/// An account that has no identity yet.
#[derive(Debug, PartialEq, Eq)]
pub struct NewAccount {
    /// The holder's first name.
    pub first_name: String,
    /// The holder's last name, if one was given.
    pub last_name: Option<String>,
    /// The name that the holder logs in with.
    pub login: String,
    /// The hash of the holder's password.
    pub password_hash: String,
}

/// What a [`NewAccount`] holds.
pub struct SpecNewAccount {
    /// The holder's first name.
    pub first_name: Seq<char>,
    /// The holder's last name, if one was given.
    pub last_name: Option<Seq<char>>,
    /// The name that the holder logs in with.
    pub login: Seq<char>,
    /// The hash of the holder's password.
    pub password_hash: Seq<char>,
}

impl SpecNewAccount {
    /// The account of these parts and the identity `id`.
    pub open spec fn with_id(self, id: AccountID) -> SpecAccount {
        SpecAccount {
            id,
            first_name: self.first_name,
            last_name: self.last_name,
            login: self.login,
            password_hash: self.password_hash,
        }
    }
}

impl View for NewAccount {
    type V = SpecNewAccount;

    open spec fn view(&self) -> SpecNewAccount {
        SpecNewAccount {
            first_name: self.first_name@,
            last_name: text_view(self.last_name),
            login: self.login@,
            password_hash: self.password_hash@,
        }
    }
}

/// Why an account was not registered.
#[derive(Debug)]
pub enum RegistrationError {
    /// An account with that login exists already.
    LoginNotUnique,
    /// The database failed.
    Database(sqlx::Error),
    /// Hashing the password failed.
    Bcrypt(bcrypt::BcryptError),
}

impl From<RegistrationError> for APIError {
    fn from(err: RegistrationError) -> (res: APIError) {
        match err {
            RegistrationError::LoginNotUnique => APIError::LoginAlreadyPresent,
            RegistrationError::Database(error) => APIError::from(error),
            RegistrationError::Bcrypt(error) => APIError::from(error),
        }
    }
}

impl FromSpecImpl<RegistrationError> for APIError {
    open spec fn obeys_from_spec() -> bool {
        true
    }

    open spec fn from_spec(err: RegistrationError) -> APIError {
        match err {
            RegistrationError::LoginNotUnique => APIError::LoginAlreadyPresent,
            RegistrationError::Database(error) => APIError::Database(error),
            RegistrationError::Bcrypt(error) => APIError::Hashing(error),
        }
    }
}

/// What `bcrypt::verify` answers for a password and a hash: whether the
/// hash is one of the password, or nothing where the hash cannot be read.
pub uninterp spec fn password_check(password: Seq<char>, hash: Seq<char>) -> Option<bool>;

/// The character of a decimal digit.
pub open spec fn digit(n: int) -> char {
    if n == 0 {
        '0'
    } else if n == 1 {
        '1'
    } else if n == 2 {
        '2'
    } else if n == 3 {
        '3'
    } else if n == 4 {
        '4'
    } else if n == 5 {
        '5'
    } else if n == 6 {
        '6'
    } else if n == 7 {
        '7'
    } else if n == 8 {
        '8'
    } else {
        '9'
    }
}

/// What a hash of the given cost begins with: the version `2b` and the
/// cost in two digits, each with a `$` before it, and a `$` behind.
pub open spec fn hash_prefix(cost: u32) -> Seq<char> {
    seq!['$', '2', 'b', '$', digit(cost as int / 10), digit(cost as int % 10), '$']
}

/// Calls `bcrypt::hash`. The hash is salted at random, so two calls on one
/// password differ. What is claimed holds of each: a cost outside 4 to 31
/// is refused; a hash that is returned has 60 characters (the version,
/// the cost in two digits, 22 characters of salt and 31 of hash, with
/// three `$` between them), begins with the version and the cost, and is
/// one that `bcrypt::verify` accepts for the password, since it hashes
/// the password again with the salt and the cost that it reads in the
/// hash.
#[verifier::external_body]
fn hash_password(password: &str, cost: u32) -> (res: Result<String, bcrypt::BcryptError>)
    ensures
        !(4 <= cost <= 31) ==> res is Err,
        res matches Ok(hash) ==> {
            &&& hash@.len() == 60
            &&& hash@.subrange(0, 7) == hash_prefix(cost)
            &&& password_check(password@, hash@) == Some(true)
        },
{
    bcrypt::hash(password, cost)
}

/// Calls `bcrypt::verify`, and drops the error where the hash cannot be
/// read. The answer depends on the password and the hash alone.
#[verifier::external_body]
fn check_password(password: &str, hash: &str) -> (res: Option<bool>)
    ensures
        res == password_check(password@, hash@),
{
    bcrypt::verify(password, hash).ok()
}

/// Calls `to_string` on an error of sqlx: the text that its `Display`
/// gives. Nothing is claimed of the text.
#[verifier::external_body]
fn database_error_text(error: &sqlx::Error) -> (res: String) {
    error.to_string()
}

/// Calls `to_string` on an error of bcrypt: the text that its `Display`
/// gives. Nothing is claimed of the text.
#[verifier::external_body]
fn hash_error_text(error: &bcrypt::BcryptError) -> (res: String) {
    error.to_string()
}

impl RegistrationError {
    /// The error in words.
    pub fn message(&self) -> (res: String)
        ensures
            self is LoginNotUnique ==> res@ == "Login is no unique"@,
    {
        match self {
            RegistrationError::LoginNotUnique => "Login is no unique".to_string(),
            RegistrationError::Database(error) => database_error_text(error),
            RegistrationError::Bcrypt(error) => hash_error_text(error),
        }
    }
}

/// A registration under way: the step of database work that is due, with
/// what was gathered so far.
#[derive(Debug)]
pub enum Registration {
    /// A transaction is to be begun.
    Beginning(NewAccount),
    /// The accounts with the new account's login are to be counted.
    Counting(NewAccount),
    /// The new account is to be inserted, which gives it its identity.
    Inserting(NewAccount),
    /// The transaction is to be committed.
    Committing(Account),
    /// Nothing is due: the registration has ended.
    Finished,
}

/// What a [`Registration`] holds.
pub enum SpecRegistration {
    /// A transaction is to be begun.
    Beginning(SpecNewAccount),
    /// The accounts with the new account's login are to be counted.
    Counting(SpecNewAccount),
    /// The new account is to be inserted, which gives it its identity.
    Inserting(SpecNewAccount),
    /// The transaction is to be committed.
    Committing(SpecAccount),
    /// Nothing is due: the registration has ended.
    Finished,
}

impl View for Registration {
    type V = SpecRegistration;

    open spec fn view(&self) -> SpecRegistration {
        match self {
            Registration::Beginning(account) => SpecRegistration::Beginning(account@),
            Registration::Counting(account) => SpecRegistration::Counting(account@),
            Registration::Inserting(account) => SpecRegistration::Inserting(account@),
            Registration::Committing(account) => SpecRegistration::Committing(account@),
            Registration::Finished => SpecRegistration::Finished,
        }
    }
}

/// How a step of database work ended.
#[derive(Debug)]
pub enum RegistrationEvent {
    /// The transaction was begun.
    Began,
    /// The accounts with the login were counted: there are this many.
    Counted(i64),
    /// The account was inserted and has this identity.
    Inserted(AccountID),
    /// The transaction was committed.
    Committed,
    /// The step failed.
    Failed(sqlx::Error),
}

/// What the one who does the database work is asked to do next.
#[derive(Debug)]
pub enum RegistrationAction {
    /// Begin a transaction.
    Begin,
    /// Count the accounts with the new account's login.
    CountLogin,
    /// Insert the new account.
    Insert,
    /// Commit the transaction.
    Commit,
    /// Give up the transaction, if one is open, and return this result.
    Finish(Result<Account, RegistrationError>),
    /// Do nothing: the registration has ended before.
    Stop,
}

/// What a [`RegistrationAction`] holds.
pub enum SpecRegistrationAction {
    /// Begin a transaction.
    Begin,
    /// Count the accounts with the new account's login.
    CountLogin,
    /// Insert the new account.
    Insert,
    /// Commit the transaction.
    Commit,
    /// Give up the transaction, if one is open, and return this result.
    Finish(Result<SpecAccount, RegistrationError>),
    /// Do nothing: the registration has ended before.
    Stop,
}

impl View for RegistrationAction {
    type V = SpecRegistrationAction;

    open spec fn view(&self) -> SpecRegistrationAction {
        match self {
            RegistrationAction::Begin => SpecRegistrationAction::Begin,
            RegistrationAction::CountLogin => SpecRegistrationAction::CountLogin,
            RegistrationAction::Insert => SpecRegistrationAction::Insert,
            RegistrationAction::Commit => SpecRegistrationAction::Commit,
            RegistrationAction::Finish(Ok(account)) => SpecRegistrationAction::Finish(
                Ok(account@),
            ),
            RegistrationAction::Finish(Err(error)) => SpecRegistrationAction::Finish(Err(*error)),
            RegistrationAction::Stop => SpecRegistrationAction::Stop,
        }
    }
}

impl SpecRegistration {
    /// The step that is due in this state.
    pub open spec fn due(self) -> SpecRegistrationAction {
        match self {
            SpecRegistration::Beginning(_) => SpecRegistrationAction::Begin,
            SpecRegistration::Counting(_) => SpecRegistrationAction::CountLogin,
            SpecRegistration::Inserting(_) => SpecRegistrationAction::Insert,
            SpecRegistration::Committing(_) => SpecRegistrationAction::Commit,
            SpecRegistration::Finished => SpecRegistrationAction::Stop,
        }
    }

    /// The state and the action that follow when the step that was due
    /// ended in `event`.
    ///
    /// A step that failed ends the registration with the database's error.
    /// A count of 1 or more ends it too: the login is taken. Otherwise each
    /// step that ends as awaited leads to the next, and the commit to the
    /// account. An event that the state does not await changes nothing:
    /// the step that is due is asked for again.
    pub open spec fn step(self, event: RegistrationEvent) -> (
        SpecRegistration,
        SpecRegistrationAction,
    ) {
        match (self, event) {
            (SpecRegistration::Finished, _) => (
                SpecRegistration::Finished,
                SpecRegistrationAction::Stop,
            ),
            (_, RegistrationEvent::Failed(error)) => (
                SpecRegistration::Finished,
                SpecRegistrationAction::Finish(Err(RegistrationError::Database(error))),
            ),
            (SpecRegistration::Beginning(account), RegistrationEvent::Began) => (
                SpecRegistration::Counting(account),
                SpecRegistrationAction::CountLogin,
            ),
            (SpecRegistration::Counting(account), RegistrationEvent::Counted(count)) => if count
                >= 1 {
                (
                    SpecRegistration::Finished,
                    SpecRegistrationAction::Finish(Err(RegistrationError::LoginNotUnique)),
                )
            } else {
                (SpecRegistration::Inserting(account), SpecRegistrationAction::Insert)
            },
            (SpecRegistration::Inserting(account), RegistrationEvent::Inserted(id)) => (
                SpecRegistration::Committing(account.with_id(id)),
                SpecRegistrationAction::Commit,
            ),
            (SpecRegistration::Committing(account), RegistrationEvent::Committed) => (
                SpecRegistration::Finished,
                SpecRegistrationAction::Finish(Ok(account)),
            ),
            (state, _) => (state, state.due()),
        }
    }
}

impl Registration {
    /// The first state of a registration, from the parts of the account and
    /// from what hashing the password gave.
    pub fn begin(
        first_name: String,
        last_name: Option<String>,
        login: String,
        hashed: Result<String, bcrypt::BcryptError>,
    ) -> (res: Result<Registration, RegistrationError>)
        ensures
            match hashed {
                Ok(hash) => res matches Ok(state) && state@ == SpecRegistration::Beginning(
                    SpecNewAccount {
                        first_name: first_name@,
                        last_name: text_view(last_name),
                        login: login@,
                        password_hash: hash@,
                    },
                ),
                Err(error) => res matches Err(reason) && reason == RegistrationError::Bcrypt(
                    error,
                ),
            },
    {
        match hashed {
            Ok(password_hash) => Ok(
                Registration::Beginning(
                    NewAccount { first_name, last_name, login, password_hash },
                ),
            ),
            Err(error) => Err(RegistrationError::Bcrypt(error)),
        }
    }

    /// The step that is due, for every state but the last; the last state
    /// asks for nothing.
    pub fn due(&self) -> (res: RegistrationAction)
        ensures
            res@ == self@.due(),
    {
        match self {
            Registration::Beginning(_) => RegistrationAction::Begin,
            Registration::Counting(_) => RegistrationAction::CountLogin,
            Registration::Inserting(_) => RegistrationAction::Insert,
            Registration::Committing(_) => RegistrationAction::Commit,
            Registration::Finished => RegistrationAction::Stop,
        }
    }

    /// The state and the action that follow when the step that was due
    /// ended in `event`.
    pub fn step(self, event: RegistrationEvent) -> (res: (Registration, RegistrationAction))
        ensures
            (res.0@, res.1@) == self@.step(event),
    {
        match (self, event) {
            (Registration::Finished, _) => (Registration::Finished, RegistrationAction::Stop),
            (_, RegistrationEvent::Failed(error)) => (
                Registration::Finished,
                RegistrationAction::Finish(Err(RegistrationError::Database(error))),
            ),
            (Registration::Beginning(account), RegistrationEvent::Began) => (
                Registration::Counting(account),
                RegistrationAction::CountLogin,
            ),
            (Registration::Counting(account), RegistrationEvent::Counted(count)) => {
                if count >= 1 {
                    (
                        Registration::Finished,
                        RegistrationAction::Finish(Err(RegistrationError::LoginNotUnique)),
                    )
                } else {
                    (Registration::Inserting(account), RegistrationAction::Insert)
                }
            },
            (Registration::Inserting(account), RegistrationEvent::Inserted(id)) => (
                Registration::Committing(
                    Account {
                        id,
                        first_name: account.first_name,
                        last_name: account.last_name,
                        login: account.login,
                        password_hash: account.password_hash,
                    },
                ),
                RegistrationAction::Commit,
            ),
            (Registration::Committing(account), RegistrationEvent::Committed) => (
                Registration::Finished,
                RegistrationAction::Finish(Ok(account)),
            ),
            (state, _) => {
                let action = state.due();
                (state, action)
            },
        }
    }
}

impl Account {
    /// Starts the registration of an account: hashes the password with
    /// [`HASH_COST`], and returns the state in which a transaction is to be
    /// begun. The hash is salted at random: what is known of it is that it
    /// has 60 characters, names the cost, and is accepted for the password.
    /// Hashing may fail.
    pub fn register(
        first_name: String,
        last_name: Option<String>,
        login: String,
        password: String,
    ) -> (res: Result<Registration, RegistrationError>)
        ensures
            match res {
                Ok(state) => state@ matches SpecRegistration::Beginning(account) && {
                    &&& account.first_name == first_name@
                    &&& account.last_name == text_view(last_name)
                    &&& account.login == login@
                    &&& account.password_hash.len() == 60
                    &&& account.password_hash.subrange(0, 7) == hash_prefix(HASH_COST)
                    &&& password_check(password@, account.password_hash) == Some(true)
                },
                Err(reason) => reason is Bcrypt,
            },
    {
        let hashed = hash_password(password.as_str(), HASH_COST);
        Registration::begin(first_name, last_name, login, hashed)
    }

    /// Whether `password` is the account's: whether the account's hash is
    /// one of the password.
    pub fn has_password(&self, password: &str) -> (res: bool)
        ensures
            res == (password_check(password@, self@.password_hash) == Some(true)),
    {
        match check_password(password, self.password_hash.as_str()) {
            Some(true) => true,
            _ => false,
        }
    }

    /// The identity of the account that was found for a login, if one was
    /// found and `password` is its password.
    pub fn authenticate(found: &Option<Account>, password: &str) -> (res: Option<AccountID>)
        ensures
            res == match *found {
                Some(account) => if password_check(password@, account@.password_hash) == Some(
                    true,
                ) {
                    Some(account.id)
                } else {
                    None
                },
                None => None,
            },
    {
        match found {
            Some(account) => {
                if account.has_password(password) {
                    Some(account.id)
                } else {
                    None
                }
            },
            None => None,
        }
    }
}

/// A login that is taken is refused, and no other: the count of the
/// accounts with the login ends the registration with `LoginNotUnique`
/// exactly when it is 1 or more, and asks for the insert when it is not.
pub proof fn lemma_taken_login_is_refused(account: SpecNewAccount, count: i64)
    ensures
        SpecRegistration::Counting(account).step(RegistrationEvent::Counted(count)) == (if count
            >= 1 {
            (
                SpecRegistration::Finished,
                SpecRegistrationAction::Finish(Err(RegistrationError::LoginNotUnique)),
            )
        } else {
            (SpecRegistration::Inserting(account), SpecRegistrationAction::Insert)
        }),
{
}

/// The hashes of this library begin with `$2b$08$`.
pub proof fn lemma_hash_prefix()
    ensures
        hash_prefix(HASH_COST) == "$2b$08$"@,
{
    reveal_strlit("$2b$08$");
    assert(hash_prefix(HASH_COST) =~= "$2b$08$"@);
}

} // verus!
