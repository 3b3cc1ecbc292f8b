use vstd::prelude::*;
use vstd::utf8::{encode_scalar, encode_utf8, encode_utf8_decode_utf8};
use crate::errors::ServiceError;
use crate::hex::{hex_of, is_hex_digit, lemma_hex_of_digits, lemma_hex_of_len};
use crate::text::{is_prefix_of, starts_with_str};
use crate::token_utils::{
    bearer_header, decode_token, extract_bearer_token, hmac_tag, hmac_tag_wf, is_bearer_scheme,
    lemma_bearer_roundtrip, lemma_token_roundtrip, signing_input, spec_bearer_token,
    spec_decode_token, spec_token, verify_token, UserTokenView,
};
use crate::user::{
    first_session_match, lemma_first_session_match_found, lemma_first_session_match_none,
    session_matches, CredentialStore, User, UserView,
};

verus! {

/// What the Authentication Gate is built from: the signing key, the password
/// hashing cost, the token lifetime, and the paths exempt from
/// authentication.  Explicit configuration, not ambient state, so that
/// tests can swap in their own keys.
pub struct AuthConfig {
    pub secret: Vec<u8>,
    pub bcrypt_cost: u32,
    pub token_ttl_seconds: u64,
    pub bypass_paths: Vec<String>,
}

impl AuthConfig {
    pub open spec fn bypass_view(&self) -> Seq<Seq<char>> {
        self.bypass_paths@.map_values(|s: String| s@)
    }

    pub open spec fn wf(&self) -> bool {
        4 <= self.bcrypt_cost <= 31
    }

    pub fn new(
        secret: Vec<u8>,
        bcrypt_cost: u32,
        token_ttl_seconds: u64,
        bypass_paths: Vec<String>,
    ) -> (r: AuthConfig)
        requires
            4 <= bcrypt_cost <= 31,
        ensures
            r.wf(),
            r.secret == secret,
            r.bcrypt_cost == bcrypt_cost,
            r.token_ttl_seconds == token_ttl_seconds,
            r.bypass_paths == bypass_paths,
    {
        AuthConfig { secret, bcrypt_cost, token_ttl_seconds, bypass_paths }
    }

    /// The allow-list the routes of the original service are exempt under:
    /// health check, registration, login, and the documentation paths.
    pub fn standard_bypass_paths() -> (r: Vec<String>)
        ensures
            r@.len() == 5,
            r@[0]@ == "/api/ping"@,
            r@[1]@ == "/users/auth/register"@,
            r@[2]@ == "/users/auth/login"@,
            r@[3]@ == "/swagger-ui/"@,
            r@[4]@ == "/api-docs/"@,
    {
        let mut r: Vec<String> = Vec::new();
        r.push("/api/ping".to_owned());
        r.push("/users/auth/register".to_owned());
        r.push("/users/auth/login".to_owned());
        r.push("/swagger-ui/".to_owned());
        r.push("/api-docs/".to_owned());
        r
    }
}

/// What authentication decides for a request, before it is flattened into
/// a response.
pub ghost enum GateOutcome {
    /// The path is on the allow-list: proceed without identity.
    Bypassed,
    /// The token named a current session: this is the caller.
    Authenticated(UserView),
    /// No credential header: bad request.
    MissingCredential,
    /// A header that is not of the bearer form: unauthorized.
    MalformedCredential,
    /// A bearer token the codec rejects (shape, signature or expiry):
    /// unauthorized.
    RejectedToken,
    /// A decoded token whose session is no longer current, or whose subject
    /// is unknown — the two are indistinguishable: unauthorized.
    SessionNotCurrent,
}

/// Whether some allow-list entry is a prefix of the path.
pub open spec fn spec_bypassed(bypass: Seq<Seq<char>>, path: Seq<char>) -> bool {
    exists|i: int| 0 <= i < bypass.len() && is_prefix_of(#[trigger] bypass[i], path)
}

pub open spec fn header_view(h: Option<&str>) -> Option<Seq<char>> {
    match h {
        Option::Some(s) => Option::Some(s@),
        Option::None => Option::None,
    }
}

/// The per-request state machine, past the bypass check: header presence,
/// then shape, then cryptographic decode, then session currency.  Each stage
/// runs only when the one before it passed.
pub open spec fn spec_gate(
    users: Seq<UserView>,
    secret: Seq<u8>,
    header: Option<Seq<char>>,
    now: u64,
) -> GateOutcome {
    match header {
        Option::None => GateOutcome::MissingCredential,
        Option::Some(h) => match spec_bearer_token(h) {
            Option::None => GateOutcome::MalformedCredential,
            Option::Some(tok) => match spec_decode_token(secret, tok, now) {
                Option::None => GateOutcome::RejectedToken,
                Option::Some(c) => {
                    let i = first_session_match(users, c.user, c.login_session);
                    if i >= 0 {
                        GateOutcome::Authenticated(users[i])
                    } else {
                        GateOutcome::SessionNotCurrent
                    }
                },
            },
        },
    }
}

/// The whole gate: allow-listed paths pass without identity, everything else
/// goes through `spec_gate`.
pub open spec fn spec_authenticate(
    users: Seq<UserView>,
    secret: Seq<u8>,
    bypass: Seq<Seq<char>>,
    path: Seq<char>,
    header: Option<Seq<char>>,
    now: u64,
) -> GateOutcome {
    if spec_bypassed(bypass, path) {
        GateOutcome::Bypassed
    } else {
        spec_gate(users, secret, header, now)
    }
}

/// How a resolved request proceeds.
#[derive(Debug)]
pub enum AuthDecision {
    /// The path is exempt: no identity attached.
    Bypassed,
    /// The authenticated account, attached to the request context.
    Authenticated(User),
}

/// Whether the path is exempt from authentication.
pub fn is_bypassed(config: &AuthConfig, path: &str) -> (r: bool)
    ensures
        r == spec_bypassed(config.bypass_view(), path@),
{
    let n = config.bypass_paths.len();
    let mut i: usize = 0;
    while i < n
        invariant
            n == config.bypass_paths@.len(),
            0 <= i <= n,
            forall|j: int| 0 <= j < i ==> !is_prefix_of(#[trigger] config.bypass_view()[j], path@),
        decreases n - i,
    {
        if starts_with_str(path, config.bypass_paths[i].as_str()) {
            assert(is_prefix_of(config.bypass_view()[i as int], path@));
            return true;
        }
        i += 1;
    }
    false
}

/// Validates the credential header and hands back the authenticated
/// username: header presence, bearer shape, token decode, session currency,
/// in that order.
pub fn check_token(
    authen_header: Option<&str>,
    store: &CredentialStore,
    secret: &[u8],
    now: u64,
) -> (r: Result<String, ServiceError>)
    ensures
        ({
            let g = spec_gate(store.users_view(), secret@, header_view(authen_header), now);
            &&& (g matches GateOutcome::Authenticated(uv) ==> (r matches Ok(u) && u@
                == uv.username))
            &&& (g is MissingCredential ==> (r matches Err(e) && e is BadRequest
                && e.spec_message() == "Token is missing"@))
            &&& (g is MalformedCredential ==> (r matches Err(e) && e is Unauthorized
                && e.spec_message() == "Invalid token, please login again"@))
            &&& (g is RejectedToken ==> (r matches Err(e) && e is Unauthorized
                && e.spec_message() == "Invalid token, please login again"@))
            &&& (g is SessionNotCurrent ==> (r matches Err(e) && e is Unauthorized
                && e.spec_message() == "User not found, please signup"@))
        }),
{
    let h = match authen_header {
        Option::Some(h) => h,
        Option::None => {
            return Err(ServiceError::BadRequest { error_message: "Token is missing".to_owned() });
        },
    };
    let tok = match extract_bearer_token(h) {
        Option::Some(t) => t,
        Option::None => {
            return Err(
                ServiceError::Unauthorized {
                    error_message: "Invalid token, please login again".to_owned(),
                },
            );
        },
    };
    let claims = match decode_token(secret, tok, now) {
        Option::Some(c) => c,
        Option::None => {
            return Err(
                ServiceError::Unauthorized {
                    error_message: "Invalid token, please login again".to_owned(),
                },
            );
        },
    };
    proof {
        crate::user::lemma_first_session_match_props(
            store.users_view(),
            claims@.user,
            claims@.login_session,
        );
    }
    verify_token(&claims, store)
}

/// Resolves the credential header all the way to the account it names.
pub fn verify_user(
    authen_header: Option<&str>,
    store: &CredentialStore,
    secret: &[u8],
    now: u64,
) -> (r: Result<User, ServiceError>)
    requires
        store.wf(),
    ensures
        ({
            let g = spec_gate(store.users_view(), secret@, header_view(authen_header), now);
            &&& (g matches GateOutcome::Authenticated(uv) ==> (r matches Ok(u) && u@ == uv))
            &&& (!(g is Authenticated) ==> r is Err)
            &&& (g is MissingCredential ==> (r matches Err(e) && e is BadRequest
                && e.spec_message() == "Token is missing"@))
            &&& ((g is MalformedCredential || g is RejectedToken) ==> (r matches Err(e)
                && e is Unauthorized && e.spec_message()
                == "Invalid token, please login again"@))
            &&& (g is SessionNotCurrent ==> (r matches Err(e) && e is Unauthorized
                && e.spec_message() == "User not found, please signup"@))
        }),
{
    let username = match check_token(authen_header, store, secret, now) {
        Ok(u) => u,
        Err(e) => {
            return Err(e);
        },
    };
    match User::find_user_by_username(username.as_str(), store) {
        Option::Some(u) => {
            proof {
                let users = store.users_view();
                let g = spec_gate(users, secret@, header_view(authen_header), now);
                let hh = header_view(authen_header)->Some_0;
                let tok = spec_bearer_token(hh)->Some_0;
                let c = spec_decode_token(secret@, tok, now)->Some_0;
                crate::user::lemma_first_session_match_props(users, c.user, c.login_session);
                let fsm = first_session_match(users, c.user, c.login_session);
                let uv = g->Authenticated_0;
                assert(users[fsm] == uv);
                let i = choose|i: int|
                    0 <= i < users.len() && #[trigger] users[i] == u@;
                assert(users[i].username == users[fsm].username);
                assert(i == fsm);
            }
            Ok(u)
        },
        Option::None => {
            proof {
                let users = store.users_view();
                let g = spec_gate(users, secret@, header_view(authen_header), now);
                if g is Authenticated {
                    let hh = header_view(authen_header)->Some_0;
                    let tok = spec_bearer_token(hh)->Some_0;
                    let c = spec_decode_token(secret@, tok, now)->Some_0;
                    crate::user::lemma_first_session_match_props(
                        users,
                        c.user,
                        c.login_session,
                    );
                    let fsm = first_session_match(users, c.user, c.login_session);
                    assert(users[fsm].username == username@);
                    assert(store.has_username(username@));
                    assert(false);
                }
            }
            Err(
                ServiceError::Unauthorized {
                    error_message: "User not found, please signup".to_owned(),
                },
            )
        },
    }
}

/// The single entry point resource handlers depend on: resolves a request's
/// path and credential header to "bypassed", an authenticated account, or a
/// failure from the error taxonomy.
pub fn authenticate(
    path: &str,
    authen_header: Option<&str>,
    store: &CredentialStore,
    config: &AuthConfig,
    now: u64,
) -> (r: Result<AuthDecision, ServiceError>)
    requires
        store.wf(),
    ensures
        ({
            let g = spec_authenticate(
                store.users_view(),
                config.secret@,
                config.bypass_view(),
                path@,
                header_view(authen_header),
                now,
            );
            &&& (g is Bypassed <==> (r matches Ok(d) && d is Bypassed))
            &&& (g matches GateOutcome::Authenticated(uv) ==> (r matches Ok(d) && d matches
                AuthDecision::Authenticated(u) && u@ == uv))
            &&& (g is MissingCredential ==> (r matches Err(e) && e is BadRequest
                && e.spec_message() == "Token is missing"@))
            &&& ((g is MalformedCredential || g is RejectedToken) ==> (r matches Err(e)
                && e is Unauthorized && e.spec_message()
                == "Invalid token, please login again"@))
            &&& (g is SessionNotCurrent ==> (r matches Err(e) && e is Unauthorized
                && e.spec_message() == "User not found, please signup"@))
        }),
{
    if is_bypassed(config, path) {
        return Ok(AuthDecision::Bypassed);
    }
    match verify_user(authen_header, store, config.secret.as_slice(), now) {
        Ok(u) => Ok(AuthDecision::Authenticated(u)),
        Err(e) => Err(e),
    }
}

/// Two strings with the same UTF-8 encoding are the same string.
pub proof fn lemma_utf8_injective(a: Seq<char>, b: Seq<char>)
    requires
        encode_utf8(a) == encode_utf8(b),
    ensures
        a == b,
{
    encode_utf8_decode_utf8(a);
    encode_utf8_decode_utf8(b);
}

/// A nonempty string has a nonempty UTF-8 encoding.
pub proof fn lemma_utf8_nonempty(a: Seq<char>)
    requires
        a.len() > 0,
    ensures
        encode_utf8(a).len() > 0,
{
    assert(encode_utf8(a) == encode_scalar(a[0] as u32) + encode_utf8(a.drop_first()));
    assert(encode_scalar(a[0] as u32).len() >= 1);
}

/// A request with no credential header to a non-bypassed path is refused as a
/// bad request, and the same request with a header that does not open with
/// the bearer scheme word is refused as unauthorized: presence is checked
/// before shape.
pub proof fn lemma_gate_requires_credential(
    users: Seq<UserView>,
    secret: Seq<u8>,
    bypass: Seq<Seq<char>>,
    path: Seq<char>,
    h: Seq<char>,
    now: u64,
)
    requires
        !spec_bypassed(bypass, path),
        !is_bearer_scheme(h),
    ensures
        spec_authenticate(users, secret, bypass, path, Option::None, now)
            is MissingCredential,
        spec_authenticate(users, secret, bypass, path, Option::Some(h), now)
            is MalformedCredential,
{
}

/// No account's session is named by claims whose subject is account `k` but
/// whose marker is empty or differs from the one account `k` stores:
/// usernames are unique, and the empty sentinel never matches.
pub proof fn lemma_marker_not_current(
    users: Seq<UserView>,
    k: int,
    user_b: Seq<u8>,
    session_b: Seq<u8>,
)
    requires
        0 <= k < users.len(),
        forall|i: int, j: int|
            0 <= i < j < users.len() ==> #[trigger] users[i].username
                != #[trigger] users[j].username,
        user_b == encode_utf8(users[k].username),
        session_b != encode_utf8(users[k].login_session) || session_b == Seq::<u8>::empty(),
    ensures
        first_session_match(users, user_b, session_b) == -1,
{
    assert forall|i: int| 0 <= i < users.len() implies !session_matches(
        #[trigger] users[i],
        user_b,
        session_b,
    ) by {
        if session_matches(users[i], user_b, session_b) {
            lemma_utf8_injective(users[i].username, users[k].username);
            if i < k {
                assert(users[i].username != users[k].username);
            }
            if k < i {
                assert(users[k].username != users[i].username);
            }
            assert(i == k);
            assert(false);
        }
    }
    lemma_first_session_match_none(users, user_b, session_b);
}

/// After logout, a token minted before it no longer authenticates: once
/// account `k` stores the empty marker, any decodable token whose subject is
/// that account is refused as unauthorized, however valid its signature and
/// expiry still are.
pub proof fn lemma_logout_invalidates(
    users: Seq<UserView>,
    secret: Seq<u8>,
    bypass: Seq<Seq<char>>,
    path: Seq<char>,
    h: Seq<char>,
    now: u64,
    k: int,
    tok: Seq<char>,
    c: UserTokenView,
)
    requires
        !spec_bypassed(bypass, path),
        forall|i: int, j: int|
            0 <= i < j < users.len() ==> #[trigger] users[i].username
                != #[trigger] users[j].username,
        0 <= k < users.len(),
        users[k].login_session == Seq::<char>::empty(),
        spec_bearer_token(h) == Option::Some(tok),
        spec_decode_token(secret, tok, now) == Option::Some(c),
        c.user == encode_utf8(users[k].username),
    ensures
        spec_authenticate(users, secret, bypass, path, Option::Some(h), now)
            is SessionNotCurrent,
{
    assert(encode_utf8(Seq::<char>::empty()) =~= Seq::<u8>::empty());
    lemma_marker_not_current(users, k, c.user, c.login_session);
}

/// A newer login invalidates the older one's token: once account `k` stores
/// a marker other than the one a token carries, that token is refused as
/// unauthorized.  With logout this makes the stored marker the single source
/// of session truth.
pub proof fn lemma_stale_login_invalidates(
    users: Seq<UserView>,
    secret: Seq<u8>,
    bypass: Seq<Seq<char>>,
    path: Seq<char>,
    h: Seq<char>,
    now: u64,
    k: int,
    tok: Seq<char>,
    c: UserTokenView,
    old_marker: Seq<char>,
)
    requires
        !spec_bypassed(bypass, path),
        forall|i: int, j: int|
            0 <= i < j < users.len() ==> #[trigger] users[i].username
                != #[trigger] users[j].username,
        0 <= k < users.len(),
        spec_bearer_token(h) == Option::Some(tok),
        spec_decode_token(secret, tok, now) == Option::Some(c),
        c.user == encode_utf8(users[k].username),
        c.login_session == encode_utf8(old_marker),
        old_marker != users[k].login_session,
    ensures
        spec_authenticate(users, secret, bypass, path, Option::Some(h), now)
            is SessionNotCurrent,
{
    if c.login_session == encode_utf8(users[k].login_session) {
        lemma_utf8_injective(old_marker, users[k].login_session);
        assert(false);
    }
    lemma_marker_not_current(users, k, c.user, c.login_session);
}

/// A token minted for an account's current marker, presented as a bearer
/// header before it expires, authenticates as exactly that account: the
/// whole credential round-trips through authentication.
pub proof fn lemma_fresh_token_authenticates(
    users: Seq<UserView>,
    secret: Seq<u8>,
    bypass: Seq<Seq<char>>,
    path: Seq<char>,
    now: u64,
    k: int,
    iat: u64,
    exp: u64,
)
    requires
        !spec_bypassed(bypass, path),
        forall|i: int, j: int|
            0 <= i < j < users.len() ==> #[trigger] users[i].username
                != #[trigger] users[j].username,
        0 <= k < users.len(),
        users[k].login_session.len() > 0,
        now < exp,
        hmac_tag_wf(
            secret,
            encode_utf8(
                signing_input(
                    encode_utf8(users[k].username),
                    encode_utf8(users[k].login_session),
                    iat,
                    exp,
                ),
            ),
        ),
    ensures
        spec_authenticate(
            users,
            secret,
            bypass,
            path,
            Option::Some(
                bearer_header(
                    spec_token(
                        secret,
                        encode_utf8(users[k].username),
                        encode_utf8(users[k].login_session),
                        iat,
                        exp,
                    ),
                ),
            ),
            now,
        ) == GateOutcome::Authenticated(users[k]),
{
    let ub = encode_utf8(users[k].username);
    let mb = encode_utf8(users[k].login_session);
    let si = signing_input(ub, mb, iat, exp);
    let tag = hmac_tag(secret, encode_utf8(si));
    let tok = spec_token(secret, ub, mb, iat, exp);
    lemma_hex_of_len(ub);
    lemma_hex_of_len(mb);
    lemma_hex_of_len(crate::hex::be_bytes_of_u64(iat));
    lemma_hex_of_len(crate::hex::be_bytes_of_u64(exp));
    assert(tok.len() == si.len() + 1 + tag.len());
    if hex_of(ub).len() > 0 {
        lemma_hex_of_digits(ub);
        assert(si[0] == hex_of(ub)[0]);
        assert(is_hex_digit(si[0]));
        assert(tok[0] == si[0]);
        assert(tok[0] != ' ');
    } else {
        assert(si[0] == '.');
        assert(tok[0] == si[0]);
    }
    assert(tok[tok.len() - 1] == tag[tag.len() - 1]);
    assert(crate::token_utils::is_base64url_char(tag[tag.len() - 1]));
    assert(tok[tok.len() - 1] != ' ');
    lemma_bearer_roundtrip(tok);
    lemma_token_roundtrip(secret, ub, mb, iat, exp, now);
    lemma_utf8_nonempty(users[k].login_session);
    assert(session_matches(users[k], ub, mb));
    assert forall|j: int| 0 <= j < k implies !session_matches(#[trigger] users[j], ub, mb) by {
        if session_matches(users[j], ub, mb) {
            lemma_utf8_injective(users[j].username, users[k].username);
            assert(false);
        }
    }
    lemma_first_session_match_found(users, ub, mb, k);
}

} // verus!
