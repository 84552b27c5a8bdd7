//! Shared-secret header authentication.
//!
//! Two middleware layers guard the service with a secret request
//! header: one admits only traffic forwarded by the fronting proxy, one
//! fences off the staging deployment.  Both are disabled when no secret
//! is configured, and both wave CORS preflight requests through.  The
//! decision itself is here; reading the environment and the HTTP
//! plumbing stay outside.

use vstd::prelude::*;
use crate::strutil::str_eq;

verus! {

/// Whether a request passes a shared-secret header check: preflight
/// requests always pass, a missing secret disables the check, and
/// otherwise the header must carry exactly the secret.
pub open spec fn spec_header_auth_allows(
    secret: Option<Seq<char>>,
    is_preflight: bool,
    header: Option<Seq<char>>,
) -> bool {
    ||| is_preflight
    ||| secret is None
    ||| (secret matches Some(s) && header matches Some(h) && h == s)
}

/// Configuration for proxy authentication: requests must carry the
/// secret the fronting proxy injects, or they are refused.
#[derive(Clone, Debug)]
pub struct ProxyAuthConfig {
    secret: Option<String>,
}

impl ProxyAuthConfig {
    /// The configured secret, if the check is enabled.
    pub closed spec fn spec_secret(&self) -> Option<Seq<char>> {
        match self.secret {
            Some(s) => Some(s@),
            None => None,
        }
    }

    /// Configuration from the secret's configured value, if any.  An
    /// absent or empty value disables the check.
    pub fn new(secret: Option<String>) -> (c: Self)
        ensures
            c.spec_secret() == (match secret {
                Some(s) => if s@.len() > 0 {
                    Some(s@)
                } else {
                    None::<Seq<char>>
                },
                None => None::<Seq<char>>,
            }),
    {
        match secret {
            Some(s) => {
                if s.as_str().unicode_len() > 0 {
                    ProxyAuthConfig { secret: Some(s) }
                } else {
                    ProxyAuthConfig { secret: None }
                }
            },
            None => ProxyAuthConfig { secret: None },
        }
    }

    /// Returns true if proxy authentication is enabled.
    pub fn is_enabled(&self) -> (r: bool)
        ensures
            r == (self.spec_secret() is Some),
    {
        self.secret.is_some()
    }

    /// Whether a request with the given preflight status and header
    /// value passes the check.
    pub fn allows(&self, is_preflight: bool, header: Option<&str>) -> (r: bool)
        ensures
            r == spec_header_auth_allows(
                self.spec_secret(),
                is_preflight,
                match header {
                    Some(h) => Some(h@),
                    None => None,
                },
            ),
    {
        if is_preflight {
            return true;
        }
        let s = match &self.secret {
            None => {
                return true;
            },
            Some(s) => s,
        };
        match header {
            Some(h) => str_eq(h, s.as_str()),
            None => false,
        }
    }
}

/// The middleware layer that applies proxy authentication.
#[derive(Clone, Debug)]
pub struct ProxyAuthLayer {
    config: ProxyAuthConfig,
}

impl ProxyAuthLayer {
    /// The layer's configured secret, if the check is enabled.
    pub closed spec fn spec_secret(&self) -> Option<Seq<char>> {
        self.config.spec_secret()
    }

    /// A layer applying the given configuration.
    pub fn new(config: ProxyAuthConfig) -> (l: Self)
        ensures
            l.spec_secret() == config.spec_secret(),
    {
        ProxyAuthLayer { config }
    }

    /// Returns true if proxy authentication is enabled.
    pub fn is_enabled(&self) -> (r: bool)
        ensures
            r == (self.spec_secret() is Some),
    {
        self.config.is_enabled()
    }

    /// Whether a request with the given preflight status and header
    /// value passes the check.
    pub fn allows(&self, is_preflight: bool, header: Option<&str>) -> (r: bool)
        ensures
            r == spec_header_auth_allows(
                self.spec_secret(),
                is_preflight,
                match header {
                    Some(h) => Some(h@),
                    None => None,
                },
            ),
    {
        self.config.allows(is_preflight, header)
    }
}

/// Configuration for staging authentication: outside of local
/// development and production, requests must carry the staging secret.
#[derive(Clone, Debug)]
pub struct StagingAuthConfig {
    secret: Option<String>,
}

impl StagingAuthConfig {
    /// The configured secret, if the check is enabled.
    pub closed spec fn spec_secret(&self) -> Option<Seq<char>> {
        match self.secret {
            Some(s) => Some(s@),
            None => None,
        }
    }

    /// Configuration from the secret's configured value, if any.  An
    /// absent or empty value disables the check.
    pub fn new(secret: Option<String>) -> (c: Self)
        ensures
            c.spec_secret() == (match secret {
                Some(s) => if s@.len() > 0 {
                    Some(s@)
                } else {
                    None::<Seq<char>>
                },
                None => None::<Seq<char>>,
            }),
    {
        match secret {
            Some(s) => {
                if s.as_str().unicode_len() > 0 {
                    StagingAuthConfig { secret: Some(s) }
                } else {
                    StagingAuthConfig { secret: None }
                }
            },
            None => StagingAuthConfig { secret: None },
        }
    }

    /// Returns true if staging authentication is enabled.
    pub fn is_enabled(&self) -> (r: bool)
        ensures
            r == (self.spec_secret() is Some),
    {
        self.secret.is_some()
    }

    /// Whether a request with the given preflight status and header
    /// value passes the check.
    pub fn allows(&self, is_preflight: bool, header: Option<&str>) -> (r: bool)
        ensures
            r == spec_header_auth_allows(
                self.spec_secret(),
                is_preflight,
                match header {
                    Some(h) => Some(h@),
                    None => None,
                },
            ),
    {
        let s = match &self.secret {
            None => {
                return true;
            },
            Some(s) => s,
        };
        if is_preflight {
            return true;
        }
        match header {
            Some(h) => str_eq(h, s.as_str()),
            None => false,
        }
    }
}

/// The middleware layer that applies staging authentication.
#[derive(Clone, Debug)]
pub struct StagingAuthLayer {
    config: StagingAuthConfig,
}

impl StagingAuthLayer {
    /// The layer's configured secret, if the check is enabled.
    pub closed spec fn spec_secret(&self) -> Option<Seq<char>> {
        self.config.spec_secret()
    }

    /// A layer applying the given configuration.
    pub fn new(config: StagingAuthConfig) -> (l: Self)
        ensures
            l.spec_secret() == config.spec_secret(),
    {
        StagingAuthLayer { config }
    }

    /// Returns true if staging authentication is enabled.
    pub fn is_enabled(&self) -> (r: bool)
        ensures
            r == (self.spec_secret() is Some),
    {
        self.config.is_enabled()
    }

    /// Whether a request with the given preflight status and header
    /// value passes the check.
    pub fn allows(&self, is_preflight: bool, header: Option<&str>) -> (r: bool)
        ensures
            r == spec_header_auth_allows(
                self.spec_secret(),
                is_preflight,
                match header {
                    Some(h) => Some(h@),
                    None => None,
                },
            ),
    {
        self.config.allows(is_preflight, header)
    }
}

/// The bearer token of an Authorization header, if the header is
/// well-formed: the scheme must be exactly `Bearer` followed by one
/// space.
pub fn parse_bearer_token<'a>(header: Option<&'a str>) -> (r: Option<&'a str>)
    ensures
        match r {
            Some(t) => header matches Some(h) && h@ == "Bearer "@ + t@,
            None => header matches Some(h) ==> !("Bearer "@.is_prefix_of(h@)),
        },
{
    let h = match header {
        Some(h) => h,
        None => {
            return None;
        },
    };
    let n = h.unicode_len();
    let prefix: &str = "Bearer ";
    let plen = prefix.unicode_len();
    proof {
        reveal_strlit("Bearer ");
    }
    if n < plen {
        proof {
            assert(!("Bearer "@.is_prefix_of(h@)));
        }
        return None;
    }
    let head = h.substring_char(0, plen);
    if str_eq(head, prefix) {
        let tail = h.substring_char(plen, n);
        proof {
            assert(h@ =~= "Bearer "@ + tail@);
        }
        Some(tail)
    } else {
        proof {
            assert(head@ =~= h@.subrange(0, 7));
            assert(!("Bearer "@.is_prefix_of(h@))) by {
                if "Bearer "@.is_prefix_of(h@) {
                    assert(h@.subrange(0, 7) =~= "Bearer "@);
                }
            }
        }
        None
    }
}

} // verus!
