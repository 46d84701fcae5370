use vstd::prelude::*;

verus! {

/// Instruction for the collaborating loader where to find the config file.
#[derive(Clone, Copy, PartialEq, Eq, Structural, Debug)]
pub enum ConfigReadOption {
    /// Read from "config.toml", relative to the current working directory.
    FromLocalFile,
    /// Read from the XDG config directory.
    FromXdgConfigDir,
}

/// Why a configuration was rejected.
#[derive(Clone, Copy, PartialEq, Eq, Structural, Debug)]
pub enum ConfigError {
    /// The URI does not parse.
    InvalidUri,
    /// The URI parses but its scheme is neither `ws` nor `wss`.
    BadScheme,
}

/// Whether a string is a syntactically valid URI; a function of the string
/// alone, decided by the URI parser that `uri_parses` relies on.
pub uninterp spec fn uri_well_formed(s: Seq<char>) -> bool;

/// Relies on `http::Uri::try_from(&str)`: `Ok` exactly when the string is a
/// syntactically valid URI.
#[verifier::external_body]
fn uri_parses(s: &str) -> (r: bool)
    ensures
        r == uri_well_formed(s@),
{
    http::Uri::try_from(s).is_ok()
}

pub open spec fn spec_has_prefix(s: Seq<char>, p: Seq<char>) -> bool {
    p.len() <= s.len() && s.subrange(0, p.len() as int) == p
}

/// The accepted schemes: the URI starts with `ws://` or `wss://`.
pub open spec fn spec_scheme_ok(s: Seq<char>) -> bool {
    spec_has_prefix(s, "ws://"@) || spec_has_prefix(s, "wss://"@)
}

fn has_prefix(s: &Vec<char>, p: &Vec<char>) -> (r: bool)
    ensures
        r == spec_has_prefix(s@, p@),
{
    if p.len() > s.len() {
        proof {
            assert(!spec_has_prefix(s@, p@));
        }
        return false;
    }
    let mut i: usize = 0;
    while i < p.len()
        invariant
            i <= p@.len() <= s@.len(),
            forall|j: int| 0 <= j < i ==> s@[j] == p@[j],
        decreases p@.len() - i,
    {
        if s[i] != p[i] {
            proof {
                assert(s@.subrange(0, p@.len() as int)[i as int] == s@[i as int]);
            }
            return false;
        }
        i = i + 1;
    }
    proof {
        assert(s@.subrange(0, p@.len() as int) =~= p@);
    }
    true
}

/// The runtime configuration: where to connect, how to authenticate, and
/// under which client name. Built once at startup and immutable thereafter.
pub struct Config {
    /// URI of the WebSocket server, scheme `ws` or `wss`.
    pub uri: String,
    /// The authentication token; an opaque secret.
    pub token: String,
    /// The unique name of this client.
    pub name: String,
}

impl Config {
    /// A configuration the session may use: the URI parses and carries one
    /// of the two accepted schemes.
    pub open spec fn spec_valid(self) -> bool {
        uri_well_formed(self.uri@) && spec_scheme_ok(self.uri@)
    }

    /// Builds a configuration from its fields, rejecting a URI that does
    /// not parse (`InvalidUri`) or whose scheme is neither `ws` nor `wss`
    /// (`BadScheme`).
    pub fn new(uri: &str, token: &str, name: &str) -> (r: Result<Config, ConfigError>)
        ensures
            match r {
                Ok(c) => c.uri@ == uri@ && c.token@ == token@ && c.name@ == name@
                    && c.spec_valid(),
                Err(e) => !(uri_well_formed(uri@) && spec_scheme_ok(uri@)) && e == (
                if !uri_well_formed(uri@) {
                    ConfigError::InvalidUri
                } else {
                    ConfigError::BadScheme
                }),
            },
    {
        if !uri_parses(uri) {
            return Err(ConfigError::InvalidUri);
        }
        let chars = crate::codec::str_to_chars(uri);
        let ws = crate::codec::str_to_chars("ws://");
        let wss = crate::codec::str_to_chars("wss://");
        if !has_prefix(&chars, &ws) && !has_prefix(&chars, &wss) {
            return Err(ConfigError::BadScheme);
        }
        Ok(Config { uri: uri.to_owned(), token: token.to_owned(), name: name.to_owned() })
    }

    /// Whether the transport must wrap the connection in TLS: the scheme
    /// is `wss`.
    pub fn uses_tls(&self) -> (r: bool)
        ensures
            r == spec_has_prefix(self.uri@, "wss://"@),
    {
        let chars = crate::codec::str_to_chars(self.uri.as_str());
        let wss = crate::codec::str_to_chars("wss://");
        has_prefix(&chars, &wss)
    }

    /// A rendering for logs that never contains the token.
    pub fn describe(&self) -> (r: String)
        ensures
            r@ == "Config { uri: "@ + self.uri@ + ", token: ******, name: "@ + self.name@
                + " }"@,
    {
        let mut out = String::new();
        out.append("Config { uri: ");
        out.append(self.uri.as_str());
        out.append(", token: ******, name: ");
        out.append(self.name.as_str());
        out.append(" }");
        proof {
            assert(out@ =~= "Config { uri: "@ + self.uri@ + ", token: ******, name: "@
                + self.name@ + " }"@);
        }
        out
    }
}

impl Clone for Config {
    fn clone(&self) -> (r: Self)
        ensures
            r == *self,
    {
        let r = Config {
            uri: self.uri.clone(),
            token: self.token.clone(),
            name: self.name.clone(),
        };
        proof {
            assert(*self == Config { uri: self.uri, token: self.token, name: self.name });
        }
        r
    }
}

} // verus!
