//! Request authorisation: the kinds offered, their data, and the headers and query
//! parameter each one adds to a request.
use vstd::prelude::*;
use vstd::utf8::encode_utf8;
use crate::outside::{base64_encode, base64_text};
use crate::text::{append_str, chars_of, string_from_chars};

verus! {

/// The kinds of authorisation offered.
#[derive(PartialEq, Eq, Structural, Clone, Copy, Debug)]
pub enum AuthType {
    NoAuth,
    BearerToken,
    BasicAuth,
    ApiKey,
}

impl Default for AuthType {
    fn default() -> (t: AuthType)
        ensures
            t == AuthType::NoAuth,
    {
        AuthType::NoAuth
    }
}

impl AuthType {
    pub open spec fn from_index_spec(index: usize) -> AuthType {
        match index {
            0 => AuthType::NoAuth,
            1 => AuthType::BearerToken,
            2 => AuthType::BasicAuth,
            3 => AuthType::ApiKey,
            _ => AuthType::NoAuth,
        }
    }

    /// The kind at a position of the selector; positions past the last give `NoAuth`.
    pub fn from_index(index: usize) -> (t: AuthType)
        ensures
            t == AuthType::from_index_spec(index),
    {
        match index {
            0 => AuthType::NoAuth,
            1 => AuthType::BearerToken,
            2 => AuthType::BasicAuth,
            3 => AuthType::ApiKey,
            _ => AuthType::NoAuth,
        }
    }

    pub open spec fn index_of(self) -> usize {
        match self {
            AuthType::NoAuth => 0,
            AuthType::BearerToken => 1,
            AuthType::BasicAuth => 2,
            AuthType::ApiKey => 3,
        }
    }

    /// The position of the kind in the selector.
    pub fn to_index(&self) -> (i: usize)
        ensures
            i == self.index_of(),
    {
        match self {
            AuthType::NoAuth => 0,
            AuthType::BearerToken => 1,
            AuthType::BasicAuth => 2,
            AuthType::ApiKey => 3,
        }
    }

    pub open spec fn label_of(self) -> Seq<char> {
        match self {
            AuthType::NoAuth => "No Auth"@,
            AuthType::BearerToken => "Bearer Token"@,
            AuthType::BasicAuth => "Basic Auth"@,
            AuthType::ApiKey => "API Key"@,
        }
    }

    /// The labels of all kinds, in selector order.
    pub fn all() -> (v: Vec<&'static str>)
        ensures
            v@.len() == 4,
            forall|i: int| 0 <= i < 4 ==> (#[trigger] v@[i])@ == AuthType::from_index_spec(i as usize).label_of(),
    {
        vec!["No Auth", "Bearer Token", "Basic Auth", "API Key"]
    }
}

/// The label shown for an authorisation kind.
pub fn auth_type_label(auth_type: AuthType) -> (r: &'static str)
    ensures
        r@ == auth_type.label_of(),
{
    match auth_type {
        AuthType::NoAuth => "No Auth",
        AuthType::BearerToken => "Bearer Token",
        AuthType::BasicAuth => "Basic Auth",
        AuthType::ApiKey => "API Key",
    }
}

/// Where an API key is sent.
#[derive(PartialEq, Eq, Structural, Clone, Copy, Debug)]
pub enum ApiKeyLocation {
    Header,
    Query,
}

impl Default for ApiKeyLocation {
    fn default() -> (l: ApiKeyLocation)
        ensures
            l == ApiKeyLocation::Header,
    {
        ApiKeyLocation::Header
    }
}

impl ApiKeyLocation {
    /// The labels of both places, in selector order.
    pub fn all() -> (v: Vec<&'static str>)
        ensures
            v@.len() == 2,
            v@[0]@ == "Header"@,
            v@[1]@ == "Query"@,
    {
        vec!["Header", "Query"]
    }

    pub open spec fn from_index_spec(index: usize) -> ApiKeyLocation {
        if index == 1 {
            ApiKeyLocation::Query
        } else {
            ApiKeyLocation::Header
        }
    }

    /// The place at a position of the selector; positions other than 1 give `Header`.
    pub fn from_index(index: usize) -> (l: ApiKeyLocation)
        ensures
            l == ApiKeyLocation::from_index_spec(index),
    {
        match index {
            0 => ApiKeyLocation::Header,
            1 => ApiKeyLocation::Query,
            _ => ApiKeyLocation::Header,
        }
    }

    pub open spec fn index_of(self) -> usize {
        match self {
            ApiKeyLocation::Header => 0,
            ApiKeyLocation::Query => 1,
        }
    }

    /// The position of the place in the selector.
    pub fn to_index(&self) -> (i: usize)
        ensures
            i == self.index_of(),
    {
        match self {
            ApiKeyLocation::Header => 0,
            ApiKeyLocation::Query => 1,
        }
    }
}

/// The data of an API key.
pub struct ApiKeyAuthData {
    pub key: String,
    pub value: String,
    /// Position selected in the place selector.
    pub location_index: usize,
    pub location_value: ApiKeyLocation,
}

/// The data of a bearer token.
pub struct BearerTokenAuthData {
    pub token: String,
}

/// The data of basic authentication.
pub struct BasicAuthData {
    pub username: String,
    pub password: String,
}

/// The authorisation of a request, with its data.
pub enum AuthState {
    NoAuth,
    Bearer(BearerTokenAuthData),
    Basic(BasicAuthData),
    ApiKey(ApiKeyAuthData),
}

/// `Authorization`
pub open spec fn authorization_name() -> Seq<char> {
    "Authorization"@
}

/// The headers an authorisation adds: `Authorization: Bearer <token>` for a non-empty token;
/// `Authorization: Basic <base64 of user:password>` for a non-empty user name; the API key as
/// its own header when it is to be sent as a header and key and value are both non-empty (a key
/// sent in the query adds no header); nothing otherwise.
pub open spec fn auth_headers(a: AuthState) -> Seq<(Seq<char>, Seq<char>)> {
    match a {
        AuthState::NoAuth => Seq::empty(),
        AuthState::Bearer(b) => if b.token@.len() == 0 {
            Seq::empty()
        } else {
            seq![(authorization_name(), "Bearer "@ + b.token@)]
        },
        AuthState::Basic(b) => if b.username@.len() == 0 {
            Seq::empty()
        } else {
            seq![(authorization_name(), "Basic "@ + base64_text(encode_utf8(b.username@ + seq![':'] + b.password@)))]
        },
        AuthState::ApiKey(k) => if k.location_value != ApiKeyLocation::Header || k.key@.len() == 0
            || k.value@.len() == 0 {
            Seq::empty()
        } else {
            seq![(k.key@, k.value@)]
        },
    }
}

/// The query parameter an authorisation adds: the API key, when it is sent in the query and
/// key and value are both non-empty.
pub open spec fn auth_query(a: AuthState) -> Option<(Seq<char>, Seq<char>)> {
    match a {
        AuthState::ApiKey(k) => if k.location_value == ApiKeyLocation::Query && k.key@.len() > 0
            && k.value@.len() > 0 {
            Some((k.key@, k.value@))
        } else {
            None
        },
        _ => None,
    }
}

/// The kind of an authorisation.
pub open spec fn kind_of(a: AuthState) -> AuthType {
    match a {
        AuthState::NoAuth => AuthType::NoAuth,
        AuthState::Bearer(_) => AuthType::BearerToken,
        AuthState::Basic(_) => AuthType::BasicAuth,
        AuthState::ApiKey(_) => AuthType::ApiKey,
    }
}

/// The authorisation a kind starts with when it is chosen: empty fields, an API key sent in
/// a header.
pub open spec fn is_fresh_auth(a: AuthState, t: AuthType) -> bool {
    kind_of(a) == t && match a {
        AuthState::NoAuth => true,
        AuthState::Bearer(b) => b.token@.len() == 0,
        AuthState::Basic(b) => b.username@.len() == 0 && b.password@.len() == 0,
        AuthState::ApiKey(k) => k.key@.len() == 0 && k.value@.len() == 0 && k.location_index == 0
            && k.location_value == ApiKeyLocation::Header,
    }
}

/// The basic credentials, `user:password`, fit in memory.
pub open spec fn credentials_fit(a: AuthState) -> bool {
    match a {
        AuthState::Basic(b) => encode_utf8(b.username@).len() + 1 + encode_utf8(b.password@).len()
            <= usize::MAX / 2,
        _ => true,
    }
}

proof fn lemma_utf8_concat(a: Seq<char>, b: Seq<char>)
    ensures
        encode_utf8(a + b) == encode_utf8(a) + encode_utf8(b),
    decreases a.len(),
{
    if a.len() > 0 {
        lemma_utf8_concat(a.drop_first(), b);
        assert((a + b).drop_first() =~= a.drop_first() + b);
        assert(encode_utf8(a) + encode_utf8(b) =~= vstd::utf8::encode_scalar(a[0] as u32) + (encode_utf8(a.drop_first()) + encode_utf8(b)));
    } else {
        assert(a + b =~= b);
    }
}

fn copy_string(s: &String) -> (r: String)
    ensures
        r == *s,
{
    s.clone()
}

impl Default for AuthState {
    /// No authorisation.
    fn default() -> (a: AuthState)
        ensures
            a is NoAuth,
    {
        AuthState::NoAuth
    }
}

impl AuthState {
    /// The headers the authorisation adds to a request (see `auth_headers`).
    pub fn to_headers(&self) -> (r: Vec<(String, String)>)
        requires
            credentials_fit(*self),
        ensures
            r@.map_values(|p: (String, String)| (p.0@, p.1@)) == auth_headers(*self),
    {
        let mut out: Vec<(String, String)> = Vec::new();
        match self {
            AuthState::NoAuth => {},
            AuthState::Bearer(auth) => {
                if !auth.token.as_str().is_empty() {
                    let mut v = chars_of("Bearer ");
                    append_str(&mut v, auth.token.as_str());
                    out.push((string_from_chars(&chars_of("Authorization")), string_from_chars(&v)));
                }
            },
            AuthState::Basic(auth) => {
                if !auth.username.as_str().is_empty() {
                    let mut cred = chars_of(auth.username.as_str());
                    cred.push(':');
                    append_str(&mut cred, auth.password.as_str());
                    let cred_s = string_from_chars(&cred);
                    proof {
                        lemma_utf8_concat(auth.username@, seq![':']);
                        lemma_utf8_concat(auth.username@ + seq![':'], auth.password@);
                        assert(cred_s@ == auth.username@ + seq![':'] + auth.password@);
                        assert(vstd::utf8::is_ascii_chars(seq![':']));
                        vstd::utf8::is_ascii_chars_encode_utf8(seq![':']);
                    }
                    let encoded = base64_encode(cred_s.as_str());
                    let mut v = chars_of("Basic ");
                    append_str(&mut v, encoded.as_str());
                    out.push((string_from_chars(&chars_of("Authorization")), string_from_chars(&v)));
                }
            },
            AuthState::ApiKey(auth) => {
                if auth.location_value == ApiKeyLocation::Header && !auth.key.as_str().is_empty()
                    && !auth.value.as_str().is_empty() {
                    out.push((copy_string(&auth.key), copy_string(&auth.value)));
                }
            },
        }
        assert(out@.map_values(|p: (String, String)| (p.0@, p.1@)) =~= auth_headers(*self));
        out
    }

    /// The query parameter the authorisation adds (see `auth_query`).
    pub fn to_query_params(&self) -> (r: Option<(String, String)>)
        ensures
            match r {
                Some(p) => auth_query(*self) == Some((p.0@, p.1@)),
                None => auth_query(*self) is None,
            },
    {
        match self {
            AuthState::ApiKey(auth) => {
                if auth.location_value == ApiKeyLocation::Query && !auth.key.as_str().is_empty()
                    && !auth.value.as_str().is_empty() {
                    Some((copy_string(&auth.key), copy_string(&auth.value)))
                } else {
                    None
                }
            },
            _ => None,
        }
    }

    /// Moves an API key between header and query; other kinds are left as they are.
    pub fn toggle_api_key_location(&mut self)
        ensures
            match *old(self) {
                AuthState::ApiKey(k) => *final(self) == AuthState::ApiKey(ApiKeyAuthData {
                    location_value: match k.location_value {
                        ApiKeyLocation::Header => ApiKeyLocation::Query,
                        ApiKeyLocation::Query => ApiKeyLocation::Header,
                    },
                    ..k
                }),
                _ => *final(self) == *old(self),
            },
    {
        if let AuthState::ApiKey(auth) = self {
            auth.location_value = match auth.location_value {
                ApiKeyLocation::Header => ApiKeyLocation::Query,
                ApiKeyLocation::Query => ApiKeyLocation::Header,
            };
        }
    }

    /// Sends an API key in the given place; other kinds are left as they are.
    pub fn set_api_key_location(&mut self, location: ApiKeyLocation)
        ensures
            match *old(self) {
                AuthState::ApiKey(k) => *final(self) == AuthState::ApiKey(ApiKeyAuthData {
                    location_value: location,
                    ..k
                }),
                _ => *final(self) == *old(self),
            },
    {
        if let AuthState::ApiKey(auth) = self {
            if auth.location_value != location {
                auth.location_value = location;
            }
        }
    }

    /// The kind of the authorisation.
    pub fn auth_type(&self) -> (t: AuthType)
        ensures
            t == kind_of(*self),
    {
        match self {
            AuthState::NoAuth => AuthType::NoAuth,
            AuthState::Bearer(_) => AuthType::BearerToken,
            AuthState::Basic(_) => AuthType::BasicAuth,
            AuthState::ApiKey(_) => AuthType::ApiKey,
        }
    }

    /// Chooses the kind at a position of the selector. Choosing the kind already in use keeps
    /// what was typed; another kind starts empty (see `is_fresh_auth`).
    pub fn set_auth_type(&mut self, index: usize)
        ensures
            kind_of(*old(self)) == AuthType::from_index_spec(index) ==> *final(self) == *old(self),
            kind_of(*old(self)) != AuthType::from_index_spec(index) ==> is_fresh_auth(*final(self), AuthType::from_index_spec(index)),
    {
        let t = AuthType::from_index(index);
        if self.auth_type() == t {
            return;
        }
        *self = match t {
            AuthType::NoAuth => AuthState::NoAuth,
            AuthType::BearerToken => AuthState::Bearer(BearerTokenAuthData { token: String::new() }),
            AuthType::BasicAuth => AuthState::Basic(BasicAuthData { username: String::new(), password: String::new() }),
            AuthType::ApiKey => AuthState::ApiKey(ApiKeyAuthData {
                key: String::new(),
                value: String::new(),
                location_index: 0,
                location_value: ApiKeyLocation::Header,
            }),
        };
    }
}

/// Law: each authorisation kind has its own position in the selector, and the kind at a
/// position gives that position back; the API key's places likewise.
pub proof fn law_auth_positions(x: AuthType, l: ApiKeyLocation, i: usize)
    ensures
        x.index_of() < 4,
        AuthType::from_index_spec(x.index_of()) == x,
        i < 4 ==> AuthType::from_index_spec(i).index_of() == i,
        l.index_of() < 2,
        ApiKeyLocation::from_index_spec(l.index_of()) == l,
        i < 2 ==> ApiKeyLocation::from_index_spec(i).index_of() == i,
{
}

} // verus!
