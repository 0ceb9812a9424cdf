//! Authentication: one username and one password verifier.

use vstd::prelude::*;
use crate::text::same_text;

verus! {

/// What `bcrypt::verify` answers for a password and a stored hash: whether
/// the password is the one that was hashed, or a failure where the hash
/// cannot be read.
pub uninterp spec fn password_verdict(password: Seq<char>, verifier: Seq<char>) -> Result<bool, ()>;

/// Checks `password` against the bcrypt hash `verifier` with
/// `bcrypt::verify`.
///
/// The check reads the cost and the salt out of the hash, hashes the password
/// with them and compares the two digests in constant time. Its answer
/// depends on the two texts alone, so it is `password_verdict` of them; the
/// kind of failure is dropped. No more is claimed of it.
#[verifier::external_body]
fn verify_password(password: &str, verifier: &str) -> (verdict: Result<bool, ()>)
    ensures
        verdict == password_verdict(password@, verifier@),
{
    match bcrypt::verify(password, verifier) {
        Ok(matches) => Ok(matches),
        Err(_) => Err(()),
    }
}

/// Cost at which passwords are hashed: bcrypt runs two to the power of this
/// many rounds.
pub const VERIFIER_COST: u32 = 10;

/// Hashes `password` with `bcrypt::hash` at the given cost, under a salt
/// that the operating system draws at random.
///
/// The salt differs from call to call, and the call fails where the system
/// gives no salt or the cost is out of bcrypt's range. Whatever hash comes
/// back holds the cost, the salt and the digest in one text, and
/// `bcrypt::verify` reads the cost and the salt back out of it, hashes again
/// and compares the digests: so the password verifies against its own hash.
/// That much is claimed, and no more.
#[verifier::external_body]
fn hash_password(password: &str, cost: u32) -> (hashed: Option<String>)
    ensures
        match hashed {
            Some(h) => password_verdict(password@, h@) == Ok::<bool, ()>(true),
            None => true,
        },
{
    match bcrypt::hash(password, cost) {
        Ok(hash) => Some(hash),
        Err(_) => None,
    }
}

/// Why no credential could be set up.
#[derive(Clone, Copy, Debug, PartialEq, Eq, Structural)]
pub enum CredentialError {
    /// No username is configured.
    MissingUsername,
    /// No password is configured.
    MissingPassword,
    /// The password could not be hashed.
    Hashing,
}

/// The one credential of the proxy, as plain values.
pub ghost struct Credential {
    pub username: Seq<char>,
    pub password_verifier: Seq<char>,
}

/// The result of a validation, given whether the password is empty,
/// whether the username is the configured one and what the check of the
/// password answered.
///
/// An empty password is refused, and so is an unknown username, whatever the
/// password check said. For the configured username and a password that is
/// not empty the answer of the password check stands, its failure included.
pub open spec fn validation_outcome(
    password_is_empty: bool,
    username_matches: bool,
    verdict: Result<bool, ()>,
) -> Result<bool, ()> {
    if password_is_empty {
        Ok(false)
    } else if username_matches {
        verdict
    } else {
        Ok(false)
    }
}

/// Exactly one credential is held. A credential whose verifier was made of
/// a password that is not empty accepts that password under its username,
/// and under every other username it accepts no password at all.
pub proof fn lemma_one_credential_is_held(
    credential: Credential,
    password: Seq<char>,
    other_username: Seq<char>,
    other_password: Seq<char>,
)
    requires
        password.len() > 0,
        password_verdict(password, credential.password_verifier) == Ok::<bool, ()>(true),
        other_username != credential.username,
    ensures
        validation_outcome(
            password.len() == 0,
            credential.username == credential.username,
            password_verdict(password, credential.password_verifier),
        ) == Ok::<bool, ()>(true),
        validation_outcome(
            other_password.len() == 0,
            credential.username == other_username,
            password_verdict(other_password, credential.password_verifier),
        ) == Ok::<bool, ()>(false),
{
}

/// Holds the username and the password verifier that clients must present.
#[derive(Clone, Debug)]
pub struct Auth {
    username: String,
    password_verifier: String,
}

impl View for Auth {
    type V = Credential;

    closed spec fn view(&self) -> Credential {
        Credential { username: self.username@, password_verifier: self.password_verifier@ }
    }
}

impl Auth {
    /// Sets up the credential from the configured username and password.
    ///
    /// Both must be there: a missing username is reported first, then a
    /// missing password. The password is not kept: it is hashed, and the hash
    /// is held as its verifier, against which the password verifies.
    pub fn new(username: Option<String>, password: Option<String>) -> (auth: Result<
        Auth,
        CredentialError,
    >)
        ensures
            match username {
                None => (auth matches Err(e) && e == CredentialError::MissingUsername),
                Some(name) => match password {
                    None => (auth matches Err(e) && e == CredentialError::MissingPassword),
                    Some(word) => match auth {
                        Ok(a) => a@.username == name@ && password_verdict(
                            word@,
                            a@.password_verifier,
                        ) == Ok::<bool, ()>(true),
                        Err(e) => e == CredentialError::Hashing,
                    },
                },
            },
    {
        let username: String = match username {
            Some(username) => username,
            None => {
                return Err(CredentialError::MissingUsername);
            },
        };
        let password: String = match password {
            Some(password) => password,
            None => {
                return Err(CredentialError::MissingPassword);
            },
        };
        match hash_password(password.as_str(), VERIFIER_COST) {
            Some(password_verifier) => Ok(Auth::with_verifier(username, password_verifier)),
            None => Err(CredentialError::Hashing),
        }
    }

    /// Holds `username` and the bcrypt hash of its password.
    pub fn with_verifier(username: String, password_verifier: String) -> (auth: Auth)
        ensures
            auth@ == (Credential { username: username@, password_verifier: password_verifier@ }),
    {
        Auth { username, password_verifier }
    }

    /// The configured username.
    pub fn username(&self) -> (username: &str)
        ensures
            username@ == self@.username,
    {
        self.username.as_str()
    }

    /// The stored password verifier.
    pub fn password_verifier(&self) -> (verifier: &str)
        ensures
            verifier@ == self@.password_verifier,
    {
        self.password_verifier.as_str()
    }

    /// Settles a validation once the password check has answered.
    pub fn decide(
        &self,
        received_username: &str,
        received_password: &str,
        verdict: Result<bool, ()>,
    ) -> (outcome: Result<bool, ()>)
        ensures
            outcome == validation_outcome(
                received_password@.len() == 0,
                self@.username == received_username@,
                verdict,
            ),
    {
        let known: bool = same_text(self.username.as_str(), received_username);
        if received_password.is_empty() {
            Ok(false)
        } else if known {
            verdict
        } else {
            Ok(false)
        }
    }

    /// Validates a username and a password.
    ///
    /// The answer is `Ok(true)` exactly if the password is not empty, the
    /// username is the configured one and the password verifies against the
    /// stored hash. An empty password gives `Ok(false)`, whatever was
    /// configured, and so does an unknown username. `Err` comes only for the
    /// configured username and a password that is not empty, where the
    /// password check itself fails. The password is checked before anything
    /// else is looked at, so that an unknown username costs as much time as a
    /// wrong password.
    pub fn validate(&self, received_username: &str, received_password: &str) -> (outcome: Result<
        bool,
        (),
    >)
        ensures
            outcome == validation_outcome(
                received_password@.len() == 0,
                self@.username == received_username@,
                password_verdict(received_password@, self@.password_verifier),
            ),
            outcome == Ok::<bool, ()>(true) <==> (received_password@.len() > 0 && self@.username
                == received_username@ && password_verdict(
                received_password@,
                self@.password_verifier,
            ) == Ok::<bool, ()>(true)),
            received_password@.len() == 0 ==> outcome == Ok::<bool, ()>(false),
            self@.username != received_username@ ==> outcome == Ok::<bool, ()>(false),
            outcome is Err ==> password_verdict(received_password@, self@.password_verifier) is Err,
    {
        let verdict = verify_password(received_password, self.password_verifier.as_str());
        self.decide(received_username, received_password, verdict)
    }
}

} // verus!
