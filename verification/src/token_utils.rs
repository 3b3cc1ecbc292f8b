use vstd::prelude::*;
use vstd::utf8::encode_utf8;
use crate::hex::{
    be_bytes_of_u64, from_hex, hex_of, is_hex_digit, lemma_hex_of_digits, lemma_unhex_hex,
    lemma_u64_bytes_roundtrip, to_hex, u64_from_hex, u64_of_be_bytes, u64_to_hex, unhex,
};
use crate::text::{lemma_trim_id, str_eq, trim_spaces, trim_spaces_str};
use crate::errors::ServiceError;
use crate::user::{first_session_match, CredentialStore, User};

verus! {

/// The claims of a bearer token.  The subject and the session marker are
/// carried as the UTF-8 bytes of the strings they came from.
pub struct UserToken {
    /// UTF-8 bytes of the subject's username.
    pub user: Vec<u8>,
    /// UTF-8 bytes of the session marker current when the token was minted.
    pub login_session: Vec<u8>,
    /// When the token was minted, seconds since the Unix epoch.
    pub iat: u64,
    /// When the token expires, seconds since the Unix epoch.
    pub exp: u64,
}

/// The mathematical shadow of `UserToken`.
pub ghost struct UserTokenView {
    pub user: Seq<u8>,
    pub login_session: Seq<u8>,
    pub iat: u64,
    pub exp: u64,
}

impl View for UserToken {
    type V = UserTokenView;

    open spec fn view(&self) -> UserTokenView {
        UserTokenView {
            user: self.user@,
            login_session: self.login_session@,
            iat: self.iat,
            exp: self.exp,
        }
    }
}

/// The HMAC-SHA-256 tag of `message` under `key`, in the base64url form
/// jsonwebtoken prints it.  Deterministic in its two arguments; nothing else
/// is assumed of it.
pub uninterp spec fn hmac_tag(key: Seq<u8>, message: Seq<u8>) -> Seq<char>;

/// The alphabet of an unpadded base64url string.
pub open spec fn is_base64url_char(c: char) -> bool {
    ||| 'A' <= c <= 'Z'
    ||| 'a' <= c <= 'z'
    ||| '0' <= c <= '9'
    ||| c == '-'
    ||| c == '_'
}

/// The shape jsonwebtoken gives every tag it prints: 43 characters of the
/// unpadded base64url alphabet.
pub open spec fn hmac_tag_wf(key: Seq<u8>, message: Seq<u8>) -> bool {
    &&& hmac_tag(key, message).len() == 43
    &&& forall|i: int|
        0 <= i < hmac_tag(key, message).len() ==> is_base64url_char(
            #[trigger] hmac_tag(key, message)[i],
        )
}

/// Relies on jsonwebtoken::crypto::sign with Algorithm::HS256 and a key from
/// EncodingKey::from_secret: for that key family signing cannot fail, is
/// deterministic in key and message, and yields the 32-byte tag as 43
/// unpadded base64url characters.
#[verifier::external_body]
fn sign_bytes(key: &[u8], message: &[u8]) -> (r: String)
    ensures
        r@ == hmac_tag(key@, message@),
        r@.len() == 43,
        forall|i: int| 0 <= i < r@.len() ==> is_base64url_char(#[trigger] r@[i]),
{
    let k = jsonwebtoken::EncodingKey::from_secret(key);
    jsonwebtoken::crypto::sign(message, &k, jsonwebtoken::Algorithm::HS256).unwrap()
}

/// No character of the string is the field separator.
pub open spec fn dot_free(s: Seq<char>) -> bool {
    forall|i: int| 0 <= i < s.len() ==> #[trigger] s[i] != '.'
}

/// The characters before the first separator; the whole string when it has
/// none.
pub open spec fn before_dot(s: Seq<char>) -> Seq<char>
    decreases s.len(),
{
    if s.len() == 0 {
        s
    } else if s[0] == '.' {
        Seq::empty()
    } else {
        seq![s[0]] + before_dot(s.drop_first())
    }
}

/// The characters after the first separator, or nothing when the string has
/// none.
pub open spec fn after_dot(s: Seq<char>) -> Option<Seq<char>>
    decreases s.len(),
{
    if s.len() == 0 {
        Option::None
    } else if s[0] == '.' {
        Option::Some(s.drop_first())
    } else {
        after_dot(s.drop_first())
    }
}

/// A separator-free prefix before a separator is what `before_dot` yields,
/// and everything behind that separator is what `after_dot` yields.
pub proof fn lemma_dot_parts(a: Seq<char>, b: Seq<char>)
    requires
        dot_free(a),
    ensures
        before_dot(a + seq!['.'] + b) == a,
        after_dot(a + seq!['.'] + b) == Option::Some(b),
    decreases a.len(),
{
    let s = a + seq!['.'] + b;
    if a.len() == 0 {
        assert(s[0] == '.');
        assert(before_dot(s) =~= a);
        assert(s.drop_first() =~= b);
    } else {
        assert(s[0] == a[0]);
        assert(a[0] != '.');
        assert(s.drop_first() =~= a.drop_first() + seq!['.'] + b);
        assert(dot_free(a.drop_first()));
        lemma_dot_parts(a.drop_first(), b);
        assert(seq![s[0]] + a.drop_first() =~= a);
    }
}

/// A string without separators has no `after_dot`.
pub proof fn lemma_no_dot(s: Seq<char>)
    requires
        dot_free(s),
    ensures
        after_dot(s) is None,
    decreases s.len(),
{
    if s.len() > 0 {
        assert(dot_free(s.drop_first()));
        lemma_no_dot(s.drop_first());
    }
}

/// When the first separator of the string stands at `d`, `before_dot` is the
/// prefix up to it and `after_dot` is the suffix behind it.
pub proof fn lemma_first_dot(s: Seq<char>, d: int)
    requires
        0 <= d < s.len(),
        s[d] == '.',
        forall|j: int| 0 <= j < d ==> #[trigger] s[j] != '.',
    ensures
        before_dot(s) == s.take(d),
        after_dot(s) == Option::Some(s.skip(d + 1)),
    decreases d,
{
    if d == 0 {
        assert(before_dot(s) =~= s.take(0));
        assert(s.drop_first() =~= s.skip(1));
    } else {
        assert(s[0] != '.');
        let t = s.drop_first();
        assert(t[d - 1] == '.');
        assert(forall|j: int| 0 <= j < d - 1 ==> #[trigger] t[j] != '.');
        lemma_first_dot(t, d - 1);
        assert(seq![s[0]] + t.take(d - 1) =~= s.take(d));
        assert(t.skip(d) =~= s.skip(d + 1));
    }
}

/// Every hex encoding is separator-free.
pub proof fn lemma_hex_dot_free(bs: Seq<u8>)
    ensures
        dot_free(hex_of(bs)),
{
    lemma_hex_of_digits(bs);
    assert forall|i: int| 0 <= i < hex_of(bs).len() implies #[trigger] hex_of(bs)[i] != '.' by {
        assert(is_hex_digit(hex_of(bs)[i]));
    }
}

/// The part of the token that is signed: the four hex claim fields joined by
/// separators.
pub open spec fn signing_input(user: Seq<u8>, session: Seq<u8>, iat: u64, exp: u64) -> Seq<char> {
    hex_of(user) + seq!['.'] + hex_of(session) + seq!['.'] + hex_of(be_bytes_of_u64(iat))
        + seq!['.'] + hex_of(be_bytes_of_u64(exp))
}

/// The full token: the signed claims, a separator, and the tag.
pub open spec fn spec_token(
    key: Seq<u8>,
    user: Seq<u8>,
    session: Seq<u8>,
    iat: u64,
    exp: u64,
) -> Seq<char> {
    signing_input(user, session, iat, exp) + seq!['.'] + hmac_tag(
        key,
        encode_utf8(signing_input(user, session, iat, exp)),
    )
}

/// What decoding yields at time `now`: the claims, exactly when the token is
/// four well-formed hex fields whose tag matches the signed part and whose
/// expiry lies in the future; nothing otherwise.  Invalid signature,
/// malformed fields and expiry all collapse to `None`.
pub open spec fn spec_decode_token(key: Seq<u8>, token: Seq<char>, now: u64) -> Option<
    UserTokenView,
> {
    match after_dot(token) {
        Option::None => Option::None,
        Option::Some(r1) => match after_dot(r1) {
            Option::None => Option::None,
            Option::Some(r2) => match after_dot(r2) {
                Option::None => Option::None,
                Option::Some(r3) => match after_dot(r3) {
                    Option::None => Option::None,
                    Option::Some(sig) => {
                        let p0 = before_dot(token);
                        let p1 = before_dot(r1);
                        let p2 = before_dot(r2);
                        let p3 = before_dot(r3);
                        let msg = p0 + seq!['.'] + p1 + seq!['.'] + p2 + seq!['.'] + p3;
                        match (unhex(p0), unhex(p1), unhex(p2), unhex(p3)) {
                            (
                                Option::Some(user),
                                Option::Some(session),
                                Option::Some(iatb),
                                Option::Some(expb),
                            ) => {
                                if iatb.len() == 8 && expb.len() == 8 && sig == hmac_tag(
                                    key,
                                    encode_utf8(msg),
                                ) && u64_of_be_bytes(expb) > now {
                                    Option::Some(
                                        UserTokenView {
                                            user,
                                            login_session: session,
                                            iat: u64_of_be_bytes(iatb),
                                            exp: u64_of_be_bytes(expb),
                                        },
                                    )
                                } else {
                                    Option::None
                                }
                            },
                            _ => Option::None,
                        }
                    },
                },
            },
        },
    }
}

/// Mints a signed token for the subject and session marker, valid from `iat`
/// until `exp`.
pub fn generate_token(secret: &[u8], username: &str, login_session: &str, iat: u64, exp: u64) -> (r:
    String)
    ensures
        r@ == spec_token(secret@, encode_utf8(username@), encode_utf8(login_session@), iat, exp),
{
    proof {
        reveal_strlit(".");
        assert("."@ =~= seq!['.']);
    }
    let mut t = to_hex(username.as_bytes());
    t.append(".");
    let session_hex = to_hex(login_session.as_bytes());
    t.append(session_hex.as_str());
    t.append(".");
    let iat_hex = u64_to_hex(iat);
    t.append(iat_hex.as_str());
    t.append(".");
    let exp_hex = u64_to_hex(exp);
    t.append(exp_hex.as_str());
    proof {
        assert(t@ =~= signing_input(
            encode_utf8(username@),
            encode_utf8(login_session@),
            iat,
            exp,
        ));
    }
    let sig = sign_bytes(secret, t.as_str().as_bytes());
    t.append(".");
    t.append(sig.as_str());
    proof {
        assert(t@ =~= spec_token(
            secret@,
            encode_utf8(username@),
            encode_utf8(login_session@),
            iat,
            exp,
        ));
    }
    t
}

/// The position of the first separator at or after `from`.
fn find_dot(s: &str, from: usize) -> (r: Option<usize>)
    requires
        from <= s@.len(),
    ensures
        match r {
            Option::Some(d) => from <= d < s@.len() && s@[d as int] == '.' && forall|j: int|
                from <= j < d ==> #[trigger] s@[j] != '.',
            Option::None => forall|j: int| from <= j < s@.len() ==> #[trigger] s@[j] != '.',
        },
{
    let n = s.unicode_len();
    let mut i: usize = from;
    while i < n
        invariant
            n == s@.len(),
            from <= i <= n,
            forall|j: int| from <= j < i ==> #[trigger] s@[j] != '.',
        decreases n - i,
    {
        if s.get_char(i) == '.' {
            return Option::Some(i);
        }
        i += 1;
    }
    Option::None
}

/// Decodes and validates a token at time `now`: structure, signature and
/// expiry.  Every failure collapses to `None`, so the caller learns only
/// "treat as unauthenticated".
#[verifier::rlimit(100)]
pub fn decode_token(secret: &[u8], token: &str, now: u64) -> (r: Option<UserToken>)
    ensures
        match r {
            Option::Some(t) => spec_decode_token(secret@, token@, now) == Option::Some(t@),
            Option::None => spec_decode_token(secret@, token@, now) is None,
        },
{
    let n = token.unicode_len();
    let d0 = match find_dot(token, 0) {
        Option::Some(d) => d,
        Option::None => {
            proof {
                lemma_no_dot(token@);
            }
            return Option::None;
        },
    };
    let ghost r1 = token@.skip(d0 as int + 1);
    proof {
        lemma_first_dot(token@, d0 as int);
    }
    let d1 = match find_dot(token, d0 + 1) {
        Option::Some(d) => d,
        Option::None => {
            proof {
                assert(dot_free(r1));
                lemma_no_dot(r1);
            }
            return Option::None;
        },
    };
    proof {
        assert(r1[d1 - d0 - 1] == '.');
        assert(forall|j: int| 0 <= j < d1 - d0 - 1 ==> #[trigger] r1[j] != '.');
        lemma_first_dot(r1, d1 - d0 - 1);
        assert(r1.skip(d1 - d0) =~= token@.skip(d1 as int + 1));
    }
    let ghost r2 = token@.skip(d1 as int + 1);
    let d2 = match find_dot(token, d1 + 1) {
        Option::Some(d) => d,
        Option::None => {
            proof {
                assert(dot_free(r2));
                lemma_no_dot(r2);
            }
            return Option::None;
        },
    };
    proof {
        assert(r2[d2 - d1 - 1] == '.');
        assert(forall|j: int| 0 <= j < d2 - d1 - 1 ==> #[trigger] r2[j] != '.');
        lemma_first_dot(r2, d2 - d1 - 1);
        assert(r2.skip(d2 - d1) =~= token@.skip(d2 as int + 1));
    }
    let ghost r3 = token@.skip(d2 as int + 1);
    let d3 = match find_dot(token, d2 + 1) {
        Option::Some(d) => d,
        Option::None => {
            proof {
                assert(dot_free(r3));
                lemma_no_dot(r3);
            }
            return Option::None;
        },
    };
    proof {
        assert(r3[d3 - d2 - 1] == '.');
        assert(forall|j: int| 0 <= j < d3 - d2 - 1 ==> #[trigger] r3[j] != '.');
        lemma_first_dot(r3, d3 - d2 - 1);
        assert(r3.skip(d3 - d2) =~= token@.skip(d3 as int + 1));
    }
    let p0 = token.substring_char(0, d0);
    let p1 = token.substring_char(d0 + 1, d1);
    let p2 = token.substring_char(d1 + 1, d2);
    let p3 = token.substring_char(d2 + 1, d3);
    let sig_part = token.substring_char(d3 + 1, n);
    proof {
        assert(p0@ =~= before_dot(token@));
        assert(p1@ =~= r1.take(d1 - d0 - 1));
        assert(p2@ =~= r2.take(d2 - d1 - 1));
        assert(p3@ =~= r3.take(d3 - d2 - 1));
        assert(sig_part@ =~= token@.skip(d3 as int + 1));
    }
    let user = match from_hex(p0) {
        Option::Some(v) => v,
        Option::None => {
            return Option::None;
        },
    };
    let session = match from_hex(p1) {
        Option::Some(v) => v,
        Option::None => {
            return Option::None;
        },
    };
    let iat = match u64_from_hex(p2) {
        Option::Some(x) => x,
        Option::None => {
            return Option::None;
        },
    };
    let exp = match u64_from_hex(p3) {
        Option::Some(x) => x,
        Option::None => {
            return Option::None;
        },
    };
    let msg = token.substring_char(0, d3);
    proof {
        assert(msg@ =~= p0@ + seq!['.'] + p1@ + seq!['.'] + p2@ + seq!['.'] + p3@);
    }
    let expected = sign_bytes(secret, msg.as_bytes());
    if !str_eq(sig_part, expected.as_str()) {
        return Option::None;
    }
    if exp <= now {
        return Option::None;
    }
    Option::Some(UserToken { user, login_session: session, iat, exp })
}

/// A token minted for given claims decodes back to exactly those claims while
/// it has not expired, and to nothing once it has: the codec round-trips, and
/// expiry is enforced.
pub proof fn lemma_token_roundtrip(
    key: Seq<u8>,
    user: Seq<u8>,
    session: Seq<u8>,
    iat: u64,
    exp: u64,
    now: u64,
)
    ensures
        now < exp ==> spec_decode_token(key, spec_token(key, user, session, iat, exp), now)
            == Option::Some(UserTokenView { user, login_session: session, iat, exp }),
        now >= exp ==> spec_decode_token(key, spec_token(key, user, session, iat, exp), now)
            is None,
{
    let p0 = hex_of(user);
    let p1 = hex_of(session);
    let p2 = hex_of(be_bytes_of_u64(iat));
    let p3 = hex_of(be_bytes_of_u64(exp));
    let si = signing_input(user, session, iat, exp);
    let sig = hmac_tag(key, encode_utf8(si));
    let t = spec_token(key, user, session, iat, exp);
    lemma_hex_dot_free(user);
    lemma_hex_dot_free(session);
    lemma_hex_dot_free(be_bytes_of_u64(iat));
    lemma_hex_dot_free(be_bytes_of_u64(exp));
    let t1 = p1 + seq!['.'] + p2 + seq!['.'] + p3 + seq!['.'] + sig;
    let t2 = p2 + seq!['.'] + p3 + seq!['.'] + sig;
    let t3 = p3 + seq!['.'] + sig;
    assert(t =~= p0 + seq!['.'] + t1);
    assert(t1 =~= p1 + seq!['.'] + t2);
    assert(t2 =~= p2 + seq!['.'] + t3);
    lemma_dot_parts(p0, t1);
    lemma_dot_parts(p1, t2);
    lemma_dot_parts(p2, t3);
    lemma_dot_parts(p3, sig);
    lemma_unhex_hex(user);
    lemma_unhex_hex(session);
    lemma_unhex_hex(be_bytes_of_u64(iat));
    lemma_unhex_hex(be_bytes_of_u64(exp));
    lemma_u64_bytes_roundtrip(iat);
    lemma_u64_bytes_roundtrip(exp);
    assert(p0 + seq!['.'] + p1 + seq!['.'] + p2 + seq!['.'] + p3 =~= si);
}

/// A token whose trailing signature field is anything but the tag of its
/// signed part is rejected, whatever its claim fields say.
pub proof fn lemma_tampered_token_rejected(
    key: Seq<u8>,
    user: Seq<u8>,
    session: Seq<u8>,
    iat: u64,
    exp: u64,
    sig2: Seq<char>,
    now: u64,
)
    requires
        sig2 != hmac_tag(key, encode_utf8(signing_input(user, session, iat, exp))),
    ensures
        spec_decode_token(
            key,
            signing_input(user, session, iat, exp) + seq!['.'] + sig2,
            now,
        ) is None,
{
    let p0 = hex_of(user);
    let p1 = hex_of(session);
    let p2 = hex_of(be_bytes_of_u64(iat));
    let p3 = hex_of(be_bytes_of_u64(exp));
    let si = signing_input(user, session, iat, exp);
    let t = si + seq!['.'] + sig2;
    lemma_hex_dot_free(user);
    lemma_hex_dot_free(session);
    lemma_hex_dot_free(be_bytes_of_u64(iat));
    lemma_hex_dot_free(be_bytes_of_u64(exp));
    let t1 = p1 + seq!['.'] + p2 + seq!['.'] + p3 + seq!['.'] + sig2;
    let t2 = p2 + seq!['.'] + p3 + seq!['.'] + sig2;
    let t3 = p3 + seq!['.'] + sig2;
    assert(t =~= p0 + seq!['.'] + t1);
    assert(t1 =~= p1 + seq!['.'] + t2);
    assert(t2 =~= p2 + seq!['.'] + t3);
    lemma_dot_parts(p0, t1);
    lemma_dot_parts(p1, t2);
    lemma_dot_parts(p2, t3);
    lemma_dot_parts(p3, sig2);
    assert(p0 + seq!['.'] + p1 + seq!['.'] + p2 + seq!['.'] + p3 =~= si);
}

/// Whether the header value opens with the bearer scheme word,
/// case-insensitively.
pub open spec fn is_bearer_scheme(h: Seq<char>) -> bool {
    &&& h.len() >= 6
    &&& (h[0] == 'b' || h[0] == 'B')
    &&& (h[1] == 'e' || h[1] == 'E')
    &&& (h[2] == 'a' || h[2] == 'A')
    &&& (h[3] == 'r' || h[3] == 'R')
    &&& (h[4] == 'e' || h[4] == 'E')
    &&& (h[5] == 'r' || h[5] == 'R')
}

/// Whether the credential header opens with the bearer scheme word.
pub fn is_auth_header_valid(authen_str: &str) -> (r: bool)
    ensures
        r == is_bearer_scheme(authen_str@),
{
    let n = authen_str.unicode_len();
    if n < 6 {
        return false;
    }
    let c0 = authen_str.get_char(0);
    let c1 = authen_str.get_char(1);
    let c2 = authen_str.get_char(2);
    let c3 = authen_str.get_char(3);
    let c4 = authen_str.get_char(4);
    let c5 = authen_str.get_char(5);
    (c0 == 'b' || c0 == 'B') && (c1 == 'e' || c1 == 'E') && (c2 == 'a' || c2 == 'A') && (c3 == 'r'
        || c3 == 'R') && (c4 == 'e' || c4 == 'E') && (c5 == 'r' || c5 == 'R')
}

/// The token a well-formed credential header carries: the scheme word, one or
/// more spaces, then the token, trimmed of surrounding spaces.  Nothing when
/// the header is not of that shape or the token is empty.
pub open spec fn spec_bearer_token(h: Seq<char>) -> Option<Seq<char>> {
    if is_bearer_scheme(h) && h.len() >= 7 && h[6] == ' ' {
        let t = trim_spaces(h.skip(6));
        if t.len() > 0 {
            Option::Some(t)
        } else {
            Option::None
        }
    } else {
        Option::None
    }
}

/// Extracts the bearer token from a credential header.
pub fn extract_bearer_token<'a>(h: &'a str) -> (r: Option<&'a str>)
    ensures
        match r {
            Option::Some(t) => spec_bearer_token(h@) == Option::Some(t@),
            Option::None => spec_bearer_token(h@) is None,
        },
{
    if !is_auth_header_valid(h) {
        return Option::None;
    }
    let n = h.unicode_len();
    if n < 7 {
        return Option::None;
    }
    if h.get_char(6) != ' ' {
        return Option::None;
    }
    let rest = h.substring_char(6, n);
    proof {
        assert(rest@ =~= h@.skip(6));
    }
    let t = trim_spaces_str(rest);
    if t.is_empty() {
        return Option::None;
    }
    Option::Some(t)
}

/// The header a client sends for a given token.
pub open spec fn bearer_header(t: Seq<char>) -> Seq<char> {
    seq!['B', 'e', 'a', 'r', 'e', 'r', ' '] + t
}

/// A bearer header built around a token without spaces at its ends hands that
/// token back.
pub proof fn lemma_bearer_roundtrip(t: Seq<char>)
    requires
        t.len() > 0,
        t[0] != ' ',
        t[t.len() - 1] != ' ',
    ensures
        spec_bearer_token(bearer_header(t)) == Option::Some(t),
{
    let h = bearer_header(t);
    assert(is_bearer_scheme(h));
    assert(h[6] == ' ');
    let u = h.skip(6);
    assert(u[0] == ' ');
    assert(u.drop_first() =~= t);
    lemma_trim_id(t);
}

/// Resolves validated claims to the username of the session's account, or
/// reports that the session is not current.  An unknown subject and a stale
/// marker fail alike.
pub fn verify_token(token_data: &UserToken, store: &CredentialStore) -> (r: Result<
    String,
    ServiceError,
>)
    ensures
        r is Ok <==> store.marker_current(token_data.user@, token_data.login_session@),
        r matches Ok(u) ==> ({
            let i = first_session_match(
                store.users_view(),
                token_data.user@,
                token_data.login_session@,
            );
            &&& 0 <= i < store.users_view().len()
            &&& u@ == store.users_view()[i].username
        }),
        r matches Err(e) ==> e is Unauthorized && e.spec_message()
            == "User not found, please signup"@,
{
    match User::find_login_info_by_token(token_data, store) {
        Ok(info) => Ok(info.username),
        Err(_) => Err(
            ServiceError::Unauthorized {
                error_message: "User not found, please signup".to_owned(),
            },
        ),
    }
}

} // verus!
