use vstd::prelude::*;
use crate::chars::{ascii_lower_seq, concat3, owned, pair_views, str_eq, to_ascii_lower};
use crate::error::{ErrorKind, TransportError};

verus! {

/// The kind tag carried by each credential record.
#[derive(PartialEq, Eq, Structural, Clone, Copy, Debug)]
pub enum AuthType {
    ApiKey,
    Basic,
    OAuth2,
}

/// An API key sent under `var_name` in a header, the query string or a cookie.
#[derive(Clone, Debug, PartialEq)]
pub struct ApiKeyAuth {
    pub auth_type: AuthType,
    pub api_key: String,
    pub var_name: String,
    pub location: String,
}

/// User name and password for HTTP basic authentication.
#[derive(Clone, Debug, PartialEq)]
pub struct BasicAuth {
    pub auth_type: AuthType,
    pub username: String,
    pub password: String,
}

/// OAuth2 client credentials.
#[derive(Clone, Debug, PartialEq)]
pub struct OAuth2Auth {
    pub auth_type: AuthType,
    pub token_url: String,
    pub client_id: String,
    pub client_secret: String,
    pub scope: Option<String>,
}

/// The credentials a provider may carry.
#[derive(Clone, Debug, PartialEq)]
pub enum AuthConfig {
    ApiKey(ApiKeyAuth),
    Basic(BasicAuth),
    OAuth2(OAuth2Auth),
}

/// Where a credential goes on an outgoing request.
#[derive(Clone, Debug, PartialEq)]
pub enum CredentialPlacement {
    /// A header with this name and value.
    Header(String, String),
    /// A query-string parameter with this name and value.
    Query(String, String),
}

/// Whether `p` is a header (`header`) or query parameter (`!header`) named
/// `name` with value `value`.
pub open spec fn placed(p: CredentialPlacement, header: bool, name: Seq<char>, value: Seq<char>) -> bool {
    match p {
        CredentialPlacement::Header(n, v) => header && n@ == name && v@ == value,
        CredentialPlacement::Query(n, v) => !header && n@ == name && v@ == value,
    }
}

// ---------------------------------------------------------------------------
// Base64 (RFC 4648, standard alphabet, with padding)
// ---------------------------------------------------------------------------

/// The character for a six-bit group in the standard Base64 alphabet.
pub open spec fn b64_char(i: int) -> char {
    if i < 26 {
        ('A' as int + i) as char
    } else if i < 52 {
        ('a' as int + (i - 26)) as char
    } else if i < 62 {
        ('0' as int + (i - 52)) as char
    } else if i == 62 {
        '+'
    } else {
        '/'
    }
}

/// The standard, padded Base64 encoding of a byte string.
pub open spec fn base64_encode(b: Seq<u8>) -> Seq<char>
    decreases b.len(),
{
    if b.len() == 0 {
        seq![]
    } else {
        let b0 = b[0] as int;
        let b1 = if b.len() > 1 {
            b[1] as int
        } else {
            0
        };
        let b2 = if b.len() > 2 {
            b[2] as int
        } else {
            0
        };
        let c0 = b64_char(b0 / 4);
        let c1 = b64_char((b0 % 4) * 16 + b1 / 16);
        let c2 = b64_char((b1 % 16) * 4 + b2 / 64);
        let c3 = b64_char(b2 % 64);
        if b.len() == 1 {
            seq![c0, c1, '=', '=']
        } else if b.len() == 2 {
            seq![c0, c1, c2, '=']
        } else {
            seq![c0, c1, c2, c3] + base64_encode(b.skip(3))
        }
    }
}

/// Wraps `base64::engine::general_purpose::STANDARD.encode`: the standard,
/// padded Base64 encoding of the bytes.
#[verifier::external_body]
fn base64_standard(bytes: &[u8]) -> (r: String)
    ensures
        r@ == base64_encode(bytes@),
{
    base64::Engine::encode(&base64::engine::general_purpose::STANDARD, bytes)
}

/// The `Authorization` value for basic authentication with these credentials.
pub open spec fn basic_credentials(user: Seq<char>, pass: Seq<char>) -> Seq<char> {
    "Basic "@ + base64_encode(vstd::utf8::encode_utf8(user + ":"@ + pass))
}

/// The `Authorization` header value `Basic <base64(user:pass)>`.
pub fn basic_header_value(user: &str, pass: &str) -> (r: String)
    ensures
        r@ == basic_credentials(user@, pass@),
{
    let joined = concat3(user, ":", pass);
    let encoded = base64_standard(joined.as_str().as_bytes());
    crate::chars::concat2("Basic ", encoded.as_str())
}

// ---------------------------------------------------------------------------
// Placement of credentials on HTTP requests
// ---------------------------------------------------------------------------

/// The rule the HTTP-based transports share for credentials:
/// an API key goes in the header, the query or a `cookie` header according
/// to its (case-insensitive) location; basic credentials go in the
/// `authorization` header; any other location, and OAuth2, are refused.
pub open spec fn http_auth_ok(auth: AuthConfig, p: CredentialPlacement) -> bool {
    match auth {
        AuthConfig::ApiKey(k) => {
            let loc = ascii_lower_seq(k.location@);
            if loc == "header"@ {
                placed(p, true, k.var_name@, k.api_key@)
            } else if loc == "query"@ {
                placed(p, false, k.var_name@, k.api_key@)
            } else {
                loc == "cookie"@ && placed(p, true, "cookie"@, k.var_name@ + "="@ + k.api_key@)
            }
        },
        AuthConfig::Basic(b) => placed(
            p,
            true,
            "authorization"@,
            basic_credentials(b.username@, b.password@),
        ),
        AuthConfig::OAuth2(_) => false,
    }
}

/// The message of the refusal of credentials that the shared HTTP rule
/// cannot place, by the transport named `transport`.
pub open spec fn http_auth_refusal(auth: AuthConfig, transport: Seq<char>) -> Seq<char> {
    match auth {
        AuthConfig::ApiKey(k) => "Unsupported API key location: "@ + ascii_lower_seq(k.location@),
        AuthConfig::OAuth2(_) => "OAuth2 auth is not yet supported by the "@ + transport
            + " transport"@,
        AuthConfig::Basic(_) => seq![],
    }
}

/// The error the HTTP-based transports give for credentials they cannot place.
pub open spec fn http_auth_err(auth: AuthConfig, transport: Seq<char>, e: TransportError) -> bool {
    &&& e.kind == ErrorKind::UnsupportedAuth
    &&& !(auth is Basic)
    &&& e.message@ == http_auth_refusal(auth, transport)
}

/// The headers the shared HTTP rule adds for placeable credentials.
pub open spec fn auth_headers_of(auth: AuthConfig) -> Seq<(Seq<char>, Seq<char>)> {
    match auth {
        AuthConfig::ApiKey(k) => {
            let loc = ascii_lower_seq(k.location@);
            if loc == "header"@ {
                seq![(k.var_name@, k.api_key@)]
            } else if loc == "cookie"@ {
                seq![("cookie"@, k.var_name@ + "="@ + k.api_key@)]
            } else {
                seq![]
            }
        },
        AuthConfig::Basic(b) => seq![("authorization"@, basic_credentials(b.username@, b.password@))],
        AuthConfig::OAuth2(_) => seq![],
    }
}

/// The query pairs the shared HTTP rule adds for placeable credentials.
pub open spec fn auth_query_of(auth: AuthConfig) -> Seq<(Seq<char>, Seq<char>)> {
    match auth {
        AuthConfig::ApiKey(k) => if ascii_lower_seq(k.location@) == "query"@ {
            seq![(k.var_name@, k.api_key@)]
        } else {
            seq![]
        },
        _ => seq![],
    }
}

/// Whether credentials can be placed by the shared HTTP rule.
pub open spec fn http_auth_placeable(auth: AuthConfig) -> bool {
    match auth {
        AuthConfig::ApiKey(k) => {
            let loc = ascii_lower_seq(k.location@);
            loc == "header"@ || loc == "query"@ || loc == "cookie"@
        },
        AuthConfig::Basic(_) => true,
        AuthConfig::OAuth2(_) => false,
    }
}

/// `name=value`, as a cookie carries a key.
pub fn cookie_pair(name: &str, value: &str) -> (r: String)
    ensures
        r@ == name@ + "="@ + value@,
{
    concat3(name, "=", value)
}

/// Where the shared HTTP rule puts `auth`; the transport's name goes into
/// the OAuth2 refusal.
pub fn http_auth_placement(auth: &AuthConfig, transport: &str) -> (r: Result<
    CredentialPlacement,
    TransportError,
>)
    ensures
        r is Ok <==> http_auth_placeable(*auth),
        match r {
            Ok(p) => http_auth_ok(*auth, p),
            Err(e) => http_auth_err(*auth, transport@, e),
        },
{
    match auth {
        AuthConfig::ApiKey(k) => {
            let loc = to_ascii_lower(k.location.as_str());
            if str_eq(loc.as_str(), "header") {
                Ok(CredentialPlacement::Header(k.var_name.clone(), k.api_key.clone()))
            } else if str_eq(loc.as_str(), "query") {
                Ok(CredentialPlacement::Query(k.var_name.clone(), k.api_key.clone()))
            } else if str_eq(loc.as_str(), "cookie") {
                Ok(
                    CredentialPlacement::Header(
                        owned("cookie"),
                        cookie_pair(k.var_name.as_str(), k.api_key.as_str()),
                    ),
                )
            } else {
                let m = crate::chars::concat2("Unsupported API key location: ", loc.as_str());
                Err(TransportError::with_message(ErrorKind::UnsupportedAuth, m))
            }
        },
        AuthConfig::Basic(b) => Ok(
            CredentialPlacement::Header(
                owned("authorization"),
                basic_header_value(b.username.as_str(), b.password.as_str()),
            ),
        ),
        AuthConfig::OAuth2(_) => {
            let m = concat3("OAuth2 auth is not yet supported by the ", transport, " transport");
            Err(TransportError::with_message(ErrorKind::UnsupportedAuth, m))
        },
    }
}

/// The three locations an API key can name are distinct words.
proof fn lemma_locations_distinct()
    ensures
        "header"@ != "query"@,
        "header"@ != "cookie"@,
        "query"@ != "cookie"@,
{
    reveal_strlit("header");
    reveal_strlit("query");
    reveal_strlit("cookie");
    assert("header"@[0] != "query"@[0]);
    assert("header"@[0] != "cookie"@[0]);
    assert("query"@[0] != "cookie"@[0]);
}

/// Adds credentials to a request's headers and query pairs by the shared
/// HTTP rule (see `auth_headers_of`, `auth_query_of`), or refuses them and
/// adds nothing.
pub fn place_http_auth(
    auth: &AuthConfig,
    transport: &str,
    headers: &mut Vec<(String, String)>,
    query: &mut Vec<(String, String)>,
) -> (r: Result<(), TransportError>)
    ensures
        r is Ok <==> http_auth_placeable(*auth),
        r is Ok ==> pair_views(final(headers)@) == pair_views(old(headers)@) + auth_headers_of(*auth)
            && pair_views(final(query)@) == pair_views(old(query)@) + auth_query_of(*auth),
        r matches Err(e) ==> http_auth_err(*auth, transport@, e) && final(headers)@ == old(headers)@
            && final(query)@ == old(query)@,
{
    let ghost h0 = pair_views(headers@);
    let ghost q0 = pair_views(query@);
    proof {
        lemma_locations_distinct();
    }
    match http_auth_placement(auth, transport) {
        Ok(CredentialPlacement::Header(n, v)) => {
            assert(auth_query_of(*auth) =~= Seq::<(Seq<char>, Seq<char>)>::empty());
            headers.push((n, v));
            assert(pair_views(headers@) =~= h0 + auth_headers_of(*auth));
            assert(pair_views(query@) =~= q0 + auth_query_of(*auth));
            Ok(())
        },
        Ok(CredentialPlacement::Query(n, v)) => {
            assert(auth_headers_of(*auth) =~= Seq::<(Seq<char>, Seq<char>)>::empty());
            query.push((n, v));
            assert(pair_views(headers@) =~= h0 + auth_headers_of(*auth));
            assert(pair_views(query@) =~= q0 + auth_query_of(*auth));
            Ok(())
        },
        Err(e) => Err(e),
    }
}

} // verus!
