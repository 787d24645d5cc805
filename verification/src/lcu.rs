//! The address under which the local game client answers, read off the
//! command line it was started with.

use vstd::prelude::*;
use vstd::string::*;
use crate::text::{remove_all, text_view, without};

verus! {

/// The switch that precedes the port on the client's command line.
pub const APP_PORT_KEY: &'static str = "--app-port=";

/// The switch that precedes the token on the client's command line.
pub const AUTH_TOKEN_KEY: &'static str = "--remoting-auth-token=";

/// The escape character that a dump of the command line may carry.
pub const CONTROL_CHAR: &'static str = "\\";

/// What the port switch and its value look like.
pub const PORT_PATTERN: &'static str = r"--app-port=\d+";

/// What the token switch and its value look like.
pub const TOKEN_PATTERN: &'static str = r"--remoting-auth-token=\w+";

/// Why no address could be read off a command line.
#[derive(Debug, Clone, Copy, PartialEq, Eq, Structural)]
pub enum AuthError {
    /// A pattern was not accepted as a regular expression.
    Pattern,
    /// The command line names a port and no token.
    TokenMissing,
}

impl AuthError {
    /// What the error says in words.
    pub open spec fn message_spec(self) -> Seq<char> {
        match self {
            AuthError::Pattern => "the pattern is not a regular expression"@,
            AuthError::TokenMissing => "the command line names a port and no token"@,
        }
    }

    /// What the error says in words.
    pub fn message(&self) -> (text: &'static str)
        ensures
            text@ == self.message_spec(),
    {
        match self {
            AuthError::Pattern => "the pattern is not a regular expression",
            AuthError::TokenMissing => "the command line names a port and no token",
        }
    }
}

/// The error of `regex::Regex::new`, carried through unread.
#[verifier::external_type_specification]
#[verifier::external_body]
pub struct ExRegexError(regex::Error);

/// What a search for the first match of the regular expression `pattern`
/// in `haystack` gives: the text of the leftmost match if there is one,
/// and an error if `pattern` is not accepted as a regular expression.
pub uninterp spec fn regex_find(pattern: Seq<char>, haystack: Seq<char>) -> Result<
    Option<Seq<char>>,
    (),
>;

/// What a search gave, as `regex_find` speaks of it.
pub open spec fn search_view(found: Result<Option<String>, regex::Error>) -> Result<
    Option<Seq<char>>,
    (),
> {
    match found {
        Ok(m) => Ok(text_view(m)),
        Err(_) => Err(()),
    }
}

/// Compiles `pattern` with `regex::Regex::new` and searches `haystack`
/// with `Regex::find`; a match is handed out as the text of
/// `Match::as_str`. Trusted: that the outcome depends on the two texts
/// alone, which is what `regex_find` names.
#[verifier::external_body]
fn find_first(pattern: &str, haystack: &str) -> (found: Result<Option<String>, regex::Error>)
    ensures
        search_view(found) == regex_find(pattern@, haystack@),
{
    match regex::Regex::new(pattern) {
        Ok(re) => Ok(re.find(haystack).map(|m| String::from(m.as_str()))),
        Err(e) => Err(e),
    }
}

/// The address of the client for a token and a port:
/// `riot:{token}@127.0.0.1:{port}`.
pub open spec fn auth_url_spec(token: Seq<char>, port: Seq<char>) -> Seq<char> {
    "riot:"@ + token + "@127.0.0.1:"@ + port
}

/// Puts the address of the client together.
pub fn make_auth_url(token: String, port: String) -> (url: String)
    ensures
        url@ == auth_url_spec(token@, port@),
{
    let mut url = String::from_str("riot:");
    url.append(token.as_str());
    url.append("@127.0.0.1:");
    url.append(port.as_str());
    url
}

/// The value of the port switch in a match of `PORT_PATTERN`.
pub open spec fn port_of(port_match: Seq<char>) -> Seq<char> {
    without(port_match, APP_PORT_KEY@)
}

/// The value of the token switch in a match of `TOKEN_PATTERN`.
pub open spec fn token_of(token_match: Seq<char>) -> Seq<char> {
    without(without(token_match, AUTH_TOKEN_KEY@), CONTROL_CHAR@)
}

/// What the two matches make: no port switch, the empty address; a port
/// switch without a token switch, an error; both, the address in which
/// the value of the port switch stands first and that of the token
/// switch last.
pub open spec fn address_spec(port_match: Option<Seq<char>>, token_match: Option<Seq<char>>)
    -> Result<Seq<char>, AuthError> {
    match port_match {
        None => Ok(Seq::empty()),
        Some(p) => match token_match {
            None => Err(AuthError::TokenMissing),
            Some(t) => Ok(auth_url_spec(port_of(p), token_of(t))),
        },
    }
}

/// The view of an address or the error in its place.
pub open spec fn address_view(address: Result<String, AuthError>) -> Result<
    Seq<char>,
    AuthError,
> {
    match address {
        Ok(url) => Ok(url@),
        Err(e) => Err(e),
    }
}

/// Makes the address from what the searches for the two switches found.
pub fn address_from_matches(port_match: Option<String>, token_match: Option<String>) -> (address:
    Result<String, AuthError>)
    ensures
        address_view(address) == address_spec(text_view(port_match), text_view(token_match)),
{
    match port_match {
        None => Ok(String::new()),
        Some(p) => match token_match {
            None => Err(AuthError::TokenMissing),
            Some(t) => {
                let port = remove_all(p.as_str(), APP_PORT_KEY);
                let bare = remove_all(t.as_str(), AUTH_TOKEN_KEY);
                let token = remove_all(bare.as_str(), CONTROL_CHAR);
                Ok(make_auth_url(port, token))
            },
        },
    }
}

/// What a command line makes, given what the searches for the two
/// switches give on it.
pub open spec fn parse_spec(
    port_search: Result<Option<Seq<char>>, ()>,
    token_search: Result<Option<Seq<char>>, ()>,
) -> Result<Seq<char>, AuthError> {
    match port_search {
        Err(_) => Err(AuthError::Pattern),
        Ok(None) => Ok(Seq::empty()),
        Ok(Some(p)) => match token_search {
            Err(_) => Err(AuthError::Pattern),
            Ok(t) => address_spec(Some(p), t),
        },
    }
}

/// What a search gives once the reason of a refusal is dropped.
pub open spec fn found_view(found: Result<Option<String>, AuthError>) -> Result<
    Option<Seq<char>>,
    (),
> {
    match found {
        Ok(m) => Ok(text_view(m)),
        Err(_) => Err(()),
    }
}

/// Searches `haystack` for the first match of the regular expression
/// `pattern`. The error is `AuthError::Pattern`, and comes exactly when
/// `pattern` is not accepted as a regular expression.
pub fn search(pattern: &str, haystack: &str) -> (found: Result<Option<String>, AuthError>)
    ensures
        found_view(found) == regex_find(pattern@, haystack@),
        found matches Err(e) ==> e == AuthError::Pattern,
{
    match find_first(pattern, haystack) {
        Ok(m) => Ok(m),
        Err(_) => Err(AuthError::Pattern),
    }
}

/// Reads the address of the client off a dump of its command line.
/// A dump without a port switch gives the empty address.
pub fn parse_auth_output(content: &str) -> (address: Result<String, AuthError>)
    ensures
        address_view(address) == parse_spec(
            regex_find(PORT_PATTERN@, content@),
            regex_find(TOKEN_PATTERN@, content@),
        ),
{
    match search(PORT_PATTERN, content) {
        Err(e) => Err(e),
        Ok(None) => Ok(String::new()),
        Ok(Some(p)) => match search(TOKEN_PATTERN, content) {
            Err(e) => Err(e),
            Ok(t) => address_from_matches(Some(p), t),
        },
    }
}

/// The connection to the local client: the address it was last seen under.
pub struct LCU {
    auth_url: String,
}

impl LCU {
    /// A connection with no address yet.
    pub fn new() -> (lcu: Self)
        ensures
            lcu.auth_url()@ == Seq::<char>::empty(),
    {
        Self { auth_url: String::new() }
    }

    /// The address the client was last seen under; empty if never.
    pub closed spec fn auth_url(&self) -> String {
        self.auth_url
    }

    /// The address the client was last seen under; empty if never.
    pub fn url(&self) -> (url: &String)
        ensures
            url@ == self.auth_url()@,
    {
        &self.auth_url
    }

    /// Takes note of the address the client was seen under.
    pub fn set_auth_url(&mut self, url: String)
        ensures
            final(self).auth_url()@ == url@,
    {
        self.auth_url = url;
    }
}

} // verus!
