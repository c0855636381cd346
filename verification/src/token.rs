//! The token codec: issues and verifies signed, expiring bearer tokens.
//!
//! A token is four dot-separated fields: the base64url-encoded user id, the
//! session id as 32 hex digits, the expiry (unix seconds) as 32 hex digits,
//! and a base64url HMAC-SHA-256 signature of everything before it. The
//! codec checks the signature before the expiry and never consults the
//! session store; revocation is the orchestrator's responsibility.

use vstd::prelude::*;

use crate::errors::TokenError;
use crate::hex::{
    hex32_parse, hex32_render, hex_seq_of, lemma_hex_seq_len, lemma_hex_seq_no_dot, HEX_WIDTH,
};

verus! {

/// The abstract content of a token: user id, session id, expiry.
#[verifier::ext_equal]
pub ghost struct ClaimsView {
    pub user_id: Seq<char>,
    pub uuid: u128,
    pub exp: u64,
}

/// The payload embedded in a signed token: user id, session id, and an
/// absolute expiry in unix seconds.
#[derive(Debug, Clone)]
pub struct Claims {
    pub user_id: String,
    pub uuid: u128,
    pub exp: u64,
}

impl View for Claims {
    type V = ClaimsView;

    open spec fn view(&self) -> ClaimsView {
        ClaimsView { user_id: self.user_id@, uuid: self.uuid, exp: self.exp }
    }
}

/// What base64url (no padding) makes of the UTF-8 bytes of a string.
pub uninterp spec fn b64u_of(s: Seq<char>) -> Seq<char>;

/// The base64url HMAC-SHA-256 signature of `msg` under `key`.
pub uninterp spec fn hs256_of(key: Seq<char>, msg: Seq<char>) -> Seq<char>;

/// No '.' occurs in `s`: such a field cannot collide with the token's
/// separator.
pub open spec fn dot_free(s: Seq<char>) -> bool {
    forall|i: int| 0 <= i < s.len() ==> s[i] != '.'
}

/// The part of a token that is signed: the three payload fields joined by
/// dots.
pub open spec fn signing_input_of(cv: ClaimsView) -> Seq<char> {
    b64u_of(cv.user_id) + seq!['.'] + hex_seq_of(cv.uuid as nat, HEX_WIDTH as nat) + seq!['.']
        + hex_seq_of(cv.exp as nat, HEX_WIDTH as nat)
}

/// The whole token: signing input, a dot, and the signature.
pub open spec fn token_of(key: Seq<char>, cv: ClaimsView) -> Seq<char> {
    signing_input_of(cv) + seq!['.'] + hs256_of(key, signing_input_of(cv))
}

/// Relies on base64's `URL_SAFE_NO_PAD` engine (via the `Engine` trait):
/// encodes the UTF-8 bytes of `s` without padding; the URL-safe alphabet
/// holds no '.'.
#[verifier::external_body]
fn b64u_encode(s: &str) -> (r: String)
    ensures
        r@ == b64u_of(s@),
        dot_free(r@),
{
    base64::Engine::encode(&base64::engine::general_purpose::URL_SAFE_NO_PAD, s.as_bytes())
}

/// Relies on base64's `URL_SAFE_NO_PAD` decode, which accepts exactly the
/// canonical unpadded encodings (it rejects padding and non-zero trailing
/// bits), and on `String::from_utf8`: together the exact inverse of
/// `b64u_encode`, `None` where `s` encodes no UTF-8 string.
#[verifier::external_body]
fn b64u_decode(s: &str) -> (r: Option<String>)
    ensures
        r is None || (r matches Some(v) && b64u_of(v@) == s@),
        r matches Some(v) ==> (forall|t: Seq<char>| s@ == b64u_of(t) ==> v@ == t),
        (exists|t: Seq<char>| s@ == b64u_of(t)) ==> r is Some,
{
    match base64::Engine::decode(
        &base64::engine::general_purpose::URL_SAFE_NO_PAD,
        s.as_bytes(),
    ) {
        Ok(bytes) => match String::from_utf8(bytes) {
            Ok(v) => Some(v),
            Err(_) => None,
        },
        Err(_) => None,
    }
}

/// Relies on jsonwebtoken's `crypto::sign` with `Algorithm::HS256`: a
/// deterministic base64url HMAC-SHA-256 of the message under the secret;
/// per the HMAC backend it accepts any secret length and cannot fail.
#[verifier::external_body]
fn sign_hs256(key: &str, msg: &str) -> (r: String)
    ensures
        r@ == hs256_of(key@, msg@),
{
    let encoding_key = jsonwebtoken::EncodingKey::from_secret(key.as_bytes());
    jsonwebtoken::crypto::sign(msg.as_bytes(), &encoding_key, jsonwebtoken::Algorithm::HS256)
        .expect("HMAC signing is infallible")
}

/// Character-by-character string equality.
fn str_eq(a: &str, b: &str) -> (r: bool)
    ensures
        r == (a@ == b@),
{
    let na = a.unicode_len();
    let nb = b.unicode_len();
    if na != nb {
        return false;
    }
    let mut i: usize = 0;
    while i < na
        invariant
            i <= na,
            na == a@.len(),
            na == b@.len(),
            forall|j: int| 0 <= j < i ==> a@[j] == b@[j],
        decreases na - i,
    {
        if a.get_char(i) != b.get_char(i) {
            return false;
        }
        i += 1;
    }
    proof {
        assert(a@ =~= b@);
    }
    true
}

/// Issues the signed compact token carrying `claims`.
pub fn issue(key: &str, claims: &Claims) -> (t: String)
    ensures
        t@ == token_of(key@, claims@),
        dot_free(b64u_of(claims.user_id@)),
{
    proof {
        reveal_strlit(".");
    }
    let mut s = b64u_encode(claims.user_id.as_str());
    s.append(".");
    let h1 = hex32_render(claims.uuid);
    s.append(h1.as_str());
    s.append(".");
    let h2 = hex32_render(claims.exp as u128);
    s.append(h2.as_str());
    let ghost si = s@;
    let sig = sign_hs256(key, s.as_str());
    s.append(".");
    s.append(sig.as_str());
    proof {
        assert("."@ =~= seq!['.']);
        assert(si =~= signing_input_of(claims@));
        assert(s@ =~= token_of(key@, claims@));
    }
    s
}

/// The index of the first dot at or after `from`.
fn find_dot(s: &str, from: usize) -> (r: Option<usize>)
    requires
        from <= s@.len(),
    ensures
        r matches Some(i) ==> from <= i && (i as int) < s@.len() && s@[i as int] == '.' && (
        forall|j: int| from <= j < i ==> s@[j] != '.'),
        r is None ==> forall|j: int| from <= j < s@.len() ==> s@[j] != '.',
{
    let n = s.unicode_len();
    let mut i: usize = from;
    while i < n
        invariant
            from <= i <= n,
            n == s@.len(),
            forall|j: int| from <= j < i ==> s@[j] != '.',
        decreases n - i,
    {
        if s.get_char(i) == '.' {
            return Some(i);
        }
        i += 1;
    }
    None
}

/// Positions and contents of the fields of a well-formed token: the first
/// three dots stand exactly after the user id field and after each hex
/// field, and the pieces between them are the fields themselves.
proof fn lemma_token_parts(key: Seq<char>, cv: ClaimsView, t: Seq<char>)
    requires
        t == token_of(key, cv),
        dot_free(b64u_of(cv.user_id)),
    ensures
        ({
            let l = b64u_of(cv.user_id).len() as int;
            &&& t.len() > l + 66
            &&& t[l] == '.'
            &&& t[l + 33] == '.'
            &&& t[l + 66] == '.'
            &&& (forall|j: int| 0 <= j < l ==> t[j] != '.')
            &&& (forall|j: int| l < j < l + 33 ==> t[j] != '.')
            &&& (forall|j: int| l + 33 < j < l + 66 ==> t[j] != '.')
            &&& t.subrange(0, l) == b64u_of(cv.user_id)
            &&& t.subrange(l + 1, l + 33) == hex_seq_of(cv.uuid as nat, HEX_WIDTH as nat)
            &&& t.subrange(l + 34, l + 66) == hex_seq_of(cv.exp as nat, HEX_WIDTH as nat)
            &&& t.subrange(0, l + 66) == signing_input_of(cv)
            &&& t.subrange(l + 67, t.len() as int) == hs256_of(key, signing_input_of(cv))
        }),
{
    let a = b64u_of(cv.user_id);
    let b = hex_seq_of(cv.uuid as nat, HEX_WIDTH as nat);
    let c = hex_seq_of(cv.exp as nat, HEX_WIDTH as nat);
    let si = signing_input_of(cv);
    let d = hs256_of(key, si);
    let l = a.len() as int;
    lemma_hex_seq_len(cv.uuid as nat, HEX_WIDTH as nat);
    lemma_hex_seq_len(cv.exp as nat, HEX_WIDTH as nat);
    lemma_hex_seq_no_dot(cv.uuid as nat, HEX_WIDTH as nat);
    lemma_hex_seq_no_dot(cv.exp as nat, HEX_WIDTH as nat);
    assert(si.len() == l + 66);
    assert(t.len() == l + 67 + d.len());
    assert(t.subrange(0, l) =~= a);
    assert(t.subrange(l + 1, l + 33) =~= b);
    assert(t.subrange(l + 34, l + 66) =~= c);
    assert(t.subrange(0, l + 66) =~= si);
    assert(t.subrange(l + 67, t.len() as int) =~= d);
    assert forall|j: int| l < j < l + 33 implies t[j] != '.' by {
        assert(t[j] == b[j - (l + 1)]);
    }
    assert forall|j: int| l + 33 < j < l + 66 implies t[j] != '.' by {
        assert(t[j] == c[j - (l + 34)]);
    }
    assert forall|j: int| 0 <= j < l implies t[j] != '.' by {
        assert(t[j] == a[j]);
    }
}

/// Verifies a compact token: splits the four fields, checks the signature
/// first, then the expiry, and returns the carried claims.
///
/// The second postcondition is completeness: any well-formed token is
/// accepted while unexpired and rejected exactly with `Expired` afterward,
/// no matter whether its session still exists.
pub fn verify(key: &str, token: &str, now: u64) -> (r: Result<Claims, TokenError>)
    ensures
        r matches Ok(c) ==> token@ == token_of(key@, c@) && c.exp >= now,
        forall|cv: ClaimsView|
            (#[trigger] token_of(key@, cv)) == token@ && dot_free(b64u_of(cv.user_id)) ==> (if cv.exp
                >= now {
                r matches Ok(c) && c@ =~= cv
            } else {
                r == Err::<Claims, TokenError>(TokenError::Expired)
            }),
{
    proof {
        reveal_strlit(".");
        assert("."@ =~= seq!['.']);
    }
    let n = token.unicode_len();
    let i1 = match find_dot(token, 0) {
        Some(i) => i,
        None => {
            proof {
                assert forall|cv: ClaimsView|
                    (#[trigger] token_of(key@, cv)) == token@ && dot_free(b64u_of(cv.user_id))
                    implies false by {
                    lemma_token_parts(key@, cv, token@);
                }
            }
            return Err(TokenError::Malformed);
        },
    };
    let i2 = match find_dot(token, i1 + 1) {
        Some(i) => i,
        None => {
            proof {
                assert forall|cv: ClaimsView|
                    (#[trigger] token_of(key@, cv)) == token@ && dot_free(b64u_of(cv.user_id))
                    implies false by {
                    lemma_token_parts(key@, cv, token@);
                    let l = b64u_of(cv.user_id).len() as int;
                    assert(i1 == l);
                    assert(token@[l + 33] == '.');
                }
            }
            return Err(TokenError::Malformed);
        },
    };
    let i3 = match find_dot(token, i2 + 1) {
        Some(i) => i,
        None => {
            proof {
                assert forall|cv: ClaimsView|
                    (#[trigger] token_of(key@, cv)) == token@ && dot_free(b64u_of(cv.user_id))
                    implies false by {
                    lemma_token_parts(key@, cv, token@);
                    let l = b64u_of(cv.user_id).len() as int;
                    assert(i1 == l);
                    assert(i2 == l + 33);
                    assert(token@[l + 66] == '.');
                }
            }
            return Err(TokenError::Malformed);
        },
    };
    let p1 = token.substring_char(0, i1);
    let p2 = token.substring_char(i1 + 1, i2);
    let p3 = token.substring_char(i2 + 1, i3);
    let sigpart = token.substring_char(i3 + 1, n);
    let msg = token.substring_char(0, i3);
    let ghost wf_pos = |cv: ClaimsView|
        {
            let l = b64u_of(cv.user_id).len() as int;
            i1 == l && i2 == l + 33 && i3 == l + 66
        };
    proof {
        assert forall|cv: ClaimsView|
            (#[trigger] token_of(key@, cv)) == token@ && dot_free(b64u_of(cv.user_id))
            implies wf_pos(cv) by {
            lemma_token_parts(key@, cv, token@);
            let l = b64u_of(cv.user_id).len() as int;
            assert(i1 == l);
            assert(i2 == l + 33);
            assert(i3 == l + 66);
        }
    }
    let uid = match b64u_decode(p1) {
        Some(u) => u,
        None => {
            proof {
                assert forall|cv: ClaimsView|
                    (#[trigger] token_of(key@, cv)) == token@ && dot_free(b64u_of(cv.user_id))
                    implies false by {
                    lemma_token_parts(key@, cv, token@);
                    let l = b64u_of(cv.user_id).len() as int;
                    assert(p1@ == token@.subrange(0, l));
                    assert(p1@ == b64u_of(cv.user_id));
                }
            }
            return Err(TokenError::Malformed);
        },
    };
    let uuid = match hex32_parse(p2) {
        Some(u) => u,
        None => {
            proof {
                assert forall|cv: ClaimsView|
                    (#[trigger] token_of(key@, cv)) == token@ && dot_free(b64u_of(cv.user_id))
                    implies false by {
                    lemma_token_parts(key@, cv, token@);
                    let l = b64u_of(cv.user_id).len() as int;
                    assert(p2@ == token@.subrange(l + 1, l + 33));
                    assert(p2@ == hex_seq_of(cv.uuid as nat, HEX_WIDTH as nat));
                }
            }
            return Err(TokenError::Malformed);
        },
    };
    let exp128 = match hex32_parse(p3) {
        Some(e) => e,
        None => {
            proof {
                assert forall|cv: ClaimsView|
                    (#[trigger] token_of(key@, cv)) == token@ && dot_free(b64u_of(cv.user_id))
                    implies false by {
                    lemma_token_parts(key@, cv, token@);
                    let l = b64u_of(cv.user_id).len() as int;
                    assert(p3@ == token@.subrange(l + 34, l + 66));
                    assert(p3@ == hex_seq_of((cv.exp as u128) as nat, HEX_WIDTH as nat));
                }
            }
            return Err(TokenError::Malformed);
        },
    };
    if exp128 > (u64::MAX as u128) {
        proof {
            assert forall|cv: ClaimsView|
                (#[trigger] token_of(key@, cv)) == token@ && dot_free(b64u_of(cv.user_id))
                implies false by {
                lemma_token_parts(key@, cv, token@);
                let l = b64u_of(cv.user_id).len() as int;
                assert(p3@ == token@.subrange(l + 34, l + 66));
                assert(p3@ == hex_seq_of((cv.exp as u128) as nat, HEX_WIDTH as nat));
                assert(exp128 == cv.exp as u128);
            }
        }
        return Err(TokenError::Malformed);
    }
    let exp = exp128 as u64;
    let expected = sign_hs256(key, msg);
    if !str_eq(expected.as_str(), sigpart) {
        proof {
            assert forall|cv: ClaimsView|
                (#[trigger] token_of(key@, cv)) == token@ && dot_free(b64u_of(cv.user_id))
                implies false by {
                lemma_token_parts(key@, cv, token@);
                let l = b64u_of(cv.user_id).len() as int;
                assert(msg@ == token@.subrange(0, l + 66));
                assert(msg@ == signing_input_of(cv));
                assert(sigpart@ == token@.subrange(l + 67, token@.len() as int));
                assert(sigpart@ == hs256_of(key@, signing_input_of(cv)));
                assert(expected@ == sigpart@);
            }
        }
        return Err(TokenError::SignatureInvalid);
    }
    if exp < now {
        proof {
            assert forall|cv: ClaimsView|
                (#[trigger] token_of(key@, cv)) == token@ && dot_free(b64u_of(cv.user_id))
                implies cv.exp < now by {
                lemma_token_parts(key@, cv, token@);
                let l = b64u_of(cv.user_id).len() as int;
                assert(p3@ == token@.subrange(l + 34, l + 66));
                assert(p3@ == hex_seq_of((cv.exp as u128) as nat, HEX_WIDTH as nat));
                assert(exp128 == cv.exp as u128);
            }
        }
        return Err(TokenError::Expired);
    }
    let c = Claims { user_id: uid, uuid, exp };
    proof {
        // Soundness: the accepted token is exactly the rendering of `c`.
        assert(token@ =~= token@.subrange(0, i1 as int) + seq!['.'] + token@.subrange(
            i1 + 1,
            i2 as int,
        ) + seq!['.'] + token@.subrange(i2 + 1, i3 as int) + seq!['.'] + token@.subrange(
            i3 + 1,
            token@.len() as int,
        ));
        assert(b64u_of(c.user_id@) == p1@);
        assert(msg@ =~= p1@ + seq!['.'] + p2@ + seq!['.'] + p3@);
        assert(msg@ =~= signing_input_of(c@));
        assert(expected@ == sigpart@);
        assert(token@ =~= token_of(key@, c@));
        // Completeness: any claims the token renders are these claims.
        assert forall|cv: ClaimsView|
            (#[trigger] token_of(key@, cv)) == token@ && dot_free(b64u_of(cv.user_id)) implies (
        cv.exp >= now && c@ =~= cv) by {
            lemma_token_parts(key@, cv, token@);
            let l = b64u_of(cv.user_id).len() as int;
            assert(p1@ == token@.subrange(0, l));
            assert(p1@ == b64u_of(cv.user_id));
            assert(uid@ == cv.user_id);
            assert(p2@ == hex_seq_of(cv.uuid as nat, HEX_WIDTH as nat));
            assert(uuid == cv.uuid);
            assert(p3@ == hex_seq_of((cv.exp as u128) as nat, HEX_WIDTH as nat));
            assert(exp128 == cv.exp as u128);
        }
    }
    Ok(c)
}

} // verus!
