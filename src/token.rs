//! The bearer token codec.
//!
//! A bearer token is the URL-safe base64 of the JSON text
//! `{"token_uuid":"<uuid>","token":"<secret>"}`, with the token's id in
//! hyphenated form and an ASCII-alphanumeric secret. Only the id is trusted
//! on decoding; the secret is a capability held by the client.
//!
//! Decoding accepts exactly this compact form, the one encoding writes: no
//! whitespace, these two keys in this order, no escapes, and a secret of at
//! most [`MAX_SECRET_LEN`] letters and digits. Any other payload, JSON or
//! not, is refused as malformed.
use argon2::password_hash::PasswordHasher;
use rand::Rng;
use vstd::prelude::*;
use vstd::string::StringSliceAdditionalSpecFns;
use vstd::utf8::{encode_utf8, is_ascii_chars, is_ascii_chars_encode_utf8};

verus! {

broadcast use vstd::string::is_ascii_spec_bytes;

/// Longest bearer text that [`encode_token`] makes.
pub const MAX_TOKEN_TEXT_LEN: usize = 5548;

/// Longest secret a token may carry.
pub const MAX_SECRET_LEN: usize = 4096;

/// Length of the secrets that new tokens get.
pub const SECRET_LEN: usize = 48;

pub open spec fn hex_digit(n: u128) -> u8 {
    if n < 10 {
        (48 + n) as u8
    } else {
        (87 + n) as u8
    }
}

/// The `k`-th hex digit of `u`, most significant first.
pub open spec fn nibble(u: u128, k: int) -> u128 {
    (u >> ((4 * (31 - k)) as u128)) & 15u128
}

pub open spec fn is_hyphen_at(i: int) -> bool {
    i == 8 || i == 13 || i == 18 || i == 23
}

/// How many hex digits precede position `i` of the hyphenated form.
pub open spec fn digits_before(i: int) -> int {
    if i <= 8 {
        i
    } else if i <= 13 {
        i - 1
    } else if i <= 18 {
        i - 2
    } else if i <= 23 {
        i - 3
    } else {
        i - 4
    }
}

/// The hyphenated lower-case text of a UUID: 8-4-4-4-12 hex digits.
pub open spec fn uuid_text(u: u128) -> Seq<u8> {
    Seq::new(
        36,
        |i: int|
            if is_hyphen_at(i) {
                45u8
            } else {
                hex_digit(nibble(u, digits_before(i)))
            },
    )
}

proof fn lemma_low_nibble(x: u128)
    ensures
        x & 15u128 <= 15,
{
    assert(x & 15u128 <= 15) by (bit_vector);
}

/// The hyphenated text of a UUID, as bytes.
pub fn uuid_to_text(u: u128) -> (r: Vec<u8>)
    ensures
        r@ == uuid_text(u),
{
    let mut r: Vec<u8> = Vec::new();
    let mut i: usize = 0;
    let mut k: usize = 0;
    while i < 36
        invariant
            i <= 36,
            r@.len() == i,
            k == digits_before(i as int),
            forall|j: int| 0 <= j < i ==> r@[j] == uuid_text(u)[j],
        decreases 36 - i,
    {
        if i == 8 || i == 13 || i == 18 || i == 23 {
            r.push(45u8);
        } else {
            let n: u128 = (u >> ((4 * (31 - k)) as u128)) & 15u128;
            proof {
                lemma_low_nibble(u >> ((4 * (31 - k)) as u128));
            }
            let d: u8 = if n < 10 {
                (48 + n) as u8
            } else {
                (87 + n) as u8
            };
            r.push(d);
            k = k + 1;
        }
        i = i + 1;
    }
    assert(r@ =~= uuid_text(u));
    r
}

/// The URL-safe base64 digit for a six-bit value.
pub open spec fn b64url_digit(v: int) -> char {
    if v < 26 {
        (v + 65) as char
    } else if v < 52 {
        (v - 26 + 97) as char
    } else if v < 62 {
        (v - 52 + 48) as char
    } else if v == 62 {
        '-'
    } else {
        '_'
    }
}

/// URL-safe, padded base64: each group of three bytes gives four digits of
/// six bits each; a last group of one or two bytes gives two or three digits
/// padded with `=` to four.
pub open spec fn b64url_of(b: Seq<u8>) -> Seq<char>
    decreases b.len(),
{
    if b.len() == 0 {
        Seq::empty()
    } else if b.len() == 1 {
        seq![b64url_digit((b[0] as int) / 4), b64url_digit(((b[0] as int) % 4) * 16), '=', '=']
    } else if b.len() == 2 {
        seq![
            b64url_digit((b[0] as int) / 4),
            b64url_digit(((b[0] as int) % 4) * 16 + (b[1] as int) / 16),
            b64url_digit(((b[1] as int) % 16) * 4),
            '=',
        ]
    } else {
        seq![
            b64url_digit((b[0] as int) / 4),
            b64url_digit(((b[0] as int) % 4) * 16 + (b[1] as int) / 16),
            b64url_digit(((b[1] as int) % 16) * 4 + (b[2] as int) / 64),
            b64url_digit((b[2] as int) % 64),
        ] + b64url_of(b.skip(3))
    }
}

/// What URL-safe base64 decoding makes of `s`; `None` where it fails.
pub uninterp spec fn b64url_decoded(s: Seq<char>) -> Option<Seq<u8>>;

/// The id that UUID parsing reads from `b`; `None` where it fails.
pub uninterp spec fn uuid_parsed(b: Seq<u8>) -> Option<u128>;

/// A character of URL-safe base64 text, padding included.
pub open spec fn is_b64url_char(c: char) -> bool {
    ('A' <= c <= 'Z') || ('a' <= c <= 'z') || ('0' <= c <= '9') || c == '-' || c == '_' || c == '='
}

/// Relies on base64::encode_config with base64::URL_SAFE, which writes the
/// standard base64 encoding with the URL-safe alphabet and `=` padding.
#[verifier::external_body]
fn b64url_encode(b: &[u8]) -> (r: String)
    requires
        b@.len() <= usize::MAX / 4,
    ensures
        r@ == b64url_of(b@),
{
    base64::encode_config(b, base64::URL_SAFE)
}

/// Base64 text has four characters per started group of three bytes, all
/// from the URL-safe alphabet or padding.
pub proof fn lemma_b64url_shape(b: Seq<u8>)
    ensures
        b64url_of(b).len() == 4 * ((b.len() + 2) / 3),
        forall|i: int| 0 <= i < b64url_of(b).len() ==> is_b64url_char(#[trigger] b64url_of(b)[i]),
    decreases b.len(),
{
    if b.len() >= 3 {
        let rest = b.skip(3);
        lemma_b64url_shape(rest);
        let head = seq![
            b64url_digit((b[0] as int) / 4),
            b64url_digit(((b[0] as int) % 4) * 16 + (b[1] as int) / 16),
            b64url_digit(((b[1] as int) % 16) * 4 + (b[2] as int) / 64),
            b64url_digit((b[2] as int) % 64),
        ];
        assert(b64url_of(b) == head + b64url_of(rest));
        assert forall|i: int| 0 <= i < b64url_of(b).len() implies is_b64url_char(
            #[trigger] b64url_of(b)[i],
        ) by {
            if i >= 4 {
                assert(b64url_of(b)[i] == b64url_of(rest)[i - 4]);
            }
        }
    }
}

/// Relies on base64::decode_config with base64::URL_SAFE, which inverts
/// encode_config under the same configuration.
#[verifier::external_body]
fn b64url_decode(s: &str) -> (r: Option<Vec<u8>>)
    requires
        s.spec_bytes().len() <= isize::MAX,
    ensures
        r is None <==> b64url_decoded(s@) is None,
        r matches Some(v) ==> b64url_decoded(s@) == Some(v@),
        forall|x: Seq<u8>| #[trigger] b64url_of(x) == s@ ==> r is Some && r->0@ == x,
{
    base64::decode_config(s, base64::URL_SAFE).ok()
}

/// Relies on uuid::Uuid::try_parse_ascii and Uuid::as_u128; the parser reads
/// back the hyphenated form that Uuid's formatter writes.
#[verifier::external_body]
fn parse_uuid(b: &[u8]) -> (r: Option<u128>)
    ensures
        r == uuid_parsed(b@),
        forall|x: u128| #[trigger] uuid_text(x) == b@ ==> r == Some(x),
{
    uuid::Uuid::try_parse_ascii(b).ok().map(|id| id.as_u128())
}

/// Why a bearer token was not accepted, or not made.
#[derive(Clone, Copy, Debug, PartialEq, Eq, Structural)]
pub enum TokenError {
    /// Not URL-safe base64.
    BadEncoding,
    /// Decodes, but not to a token payload naming a valid id.
    BadPayload,
    /// Hashing the new secret failed.
    HashFailed,
}

pub open spec fn payload_prefix() -> Seq<u8> {
    seq![123u8, 34, 116, 111, 107, 101, 110, 95, 117, 117, 105, 100, 34, 58, 34]
}

pub open spec fn payload_middle() -> Seq<u8> {
    seq![34u8, 44, 34, 116, 111, 107, 101, 110, 34, 58, 34]
}

pub open spec fn payload_suffix() -> Seq<u8> {
    seq![34u8, 125]
}

pub open spec fn is_alnum_byte(b: u8) -> bool {
    (48 <= b <= 57) || (65 <= b <= 90) || (97 <= b <= 122)
}

pub open spec fn is_alnum_char(c: char) -> bool {
    ('0' <= c <= '9') || ('A' <= c <= 'Z') || ('a' <= c <= 'z')
}

/// A secret that a token can carry: ASCII letters and digits, not too long.
pub open spec fn is_secret(s: Seq<u8>) -> bool {
    s.len() <= MAX_SECRET_LEN && forall|i: int| 0 <= i < s.len() ==> is_alnum_byte(#[trigger] s[i])
}

/// The JSON text inside a token.
pub open spec fn token_payload(id: u128, secret: Seq<u8>) -> Seq<u8> {
    payload_prefix() + uuid_text(id) + payload_middle() + secret + payload_suffix()
}

/// The bearer token for a token id and secret.
pub open spec fn token_text(id: u128, secret: Seq<u8>) -> Seq<char> {
    b64url_of(token_payload(id, secret))
}

/// The id text of a well-framed payload.
pub open spec fn payload_id_text(b: Seq<u8>) -> Option<Seq<u8>> {
    if b.len() >= 64 && b.subrange(0, 15) == payload_prefix() && b.subrange(51, 62)
        == payload_middle() && b.subrange(b.len() - 2, b.len() as int) == payload_suffix()
        && is_secret(b.subrange(62, b.len() - 2)) {
        Some(b.subrange(15, 51))
    } else {
        None
    }
}

/// The token id that a payload names.
pub open spec fn parse_payload(b: Seq<u8>) -> Result<u128, TokenError> {
    match payload_id_text(b) {
        Some(t) => match uuid_parsed(t) {
            Some(id) => Ok(id),
            None => Err(TokenError::BadPayload),
        },
        None => Err(TokenError::BadPayload),
    }
}

/// The token id that a bearer token names.
pub open spec fn decode_spec(s: Seq<char>) -> Result<u128, TokenError> {
    match b64url_decoded(s) {
        Some(b) => parse_payload(b),
        None => Err(TokenError::BadEncoding),
    }
}

/// A framed payload gives back the id text it was made with.
pub proof fn lemma_payload_framing(id: u128, secret: Seq<u8>)
    requires
        is_secret(secret),
    ensures
        payload_id_text(token_payload(id, secret)) == Some(uuid_text(id)),
{
    let b = token_payload(id, secret);
    assert(b.subrange(0, 15) =~= payload_prefix());
    assert(b.subrange(15, 51) =~= uuid_text(id));
    assert(b.subrange(51, 62) =~= payload_middle());
    assert(b.subrange(b.len() - 2, b.len() as int) =~= payload_suffix());
    assert(b.subrange(62, b.len() - 2) =~= secret);
}

fn matches_at(b: &[u8], at: usize, lit: &[u8]) -> (r: bool)
    requires
        at <= b@.len(),
    ensures
        r == (lit@.len() <= b@.len() - at && b@.subrange(at as int, at + lit@.len()) == lit@),
{
    if lit.len() > b.len() - at {
        return false;
    }
    let blen = b.len();
    let mut i: usize = 0;
    while i < lit.len()
        invariant
            blen == b@.len(),
            i <= lit@.len(),
            at <= b@.len(),
            lit@.len() <= b@.len() - at,
            forall|j: int| 0 <= j < i ==> b@[at + j] == lit@[j],
        decreases lit@.len() - i,
    {
        if b[at + i] != lit[i] {
            assert(b@.subrange(at as int, at + lit@.len())[i as int] != lit@[i as int]);
            return false;
        }
        i = i + 1;
    }
    assert(b@.subrange(at as int, at + lit@.len()) =~= lit@);
    true
}

fn all_alnum(b: &[u8], from: usize, to: usize) -> (r: bool)
    requires
        from <= to <= b@.len(),
    ensures
        r == forall|i: int| from <= i < to ==> is_alnum_byte(#[trigger] b@[i]),
{
    let mut i: usize = from;
    while i < to
        invariant
            from <= i <= to,
            to <= b@.len(),
            forall|j: int| from <= j < i ==> is_alnum_byte(#[trigger] b@[j]),
        decreases to - i,
    {
        let c = b[i];
        if !((48 <= c && c <= 57) || (65 <= c && c <= 90) || (97 <= c && c <= 122)) {
            return false;
        }
        i = i + 1;
    }
    true
}

fn copy_range(b: &[u8], from: usize, to: usize) -> (r: Vec<u8>)
    requires
        from <= to <= b@.len(),
    ensures
        r@ == b@.subrange(from as int, to as int),
{
    let mut r: Vec<u8> = Vec::new();
    let mut i: usize = from;
    while i < to
        invariant
            from <= i <= to,
            to <= b@.len(),
            r@ == b@.subrange(from as int, i as int),
        decreases to - i,
    {
        r.push(b[i]);
        i = i + 1;
        assert(r@ =~= b@.subrange(from as int, i as int));
    }
    r
}

/// Reads the token id out of a decoded payload.
pub fn parse_token_payload(b: &[u8]) -> (r: Result<u128, TokenError>)
    ensures
        r == parse_payload(b@),
        forall|id: u128, secret: Seq<u8>|
            is_secret(secret) && b@ == #[trigger] token_payload(id, secret) ==> r == Ok::<
                u128,
                TokenError,
            >(id),
{
    let prefix: Vec<u8> = vec![123u8, 34, 116, 111, 107, 101, 110, 95, 117, 117, 105, 100, 34, 58, 34];
    let middle: Vec<u8> = vec![34u8, 44, 34, 116, 111, 107, 101, 110, 34, 58, 34];
    let suffix: Vec<u8> = vec![34u8, 125];
    assert(prefix@ =~= payload_prefix());
    assert(middle@ =~= payload_middle());
    assert(suffix@ =~= payload_suffix());
    let n = b.len();
    proof {
        assert forall|id: u128, secret: Seq<u8>|
            is_secret(secret) && b@ == #[trigger] token_payload(id, secret) implies payload_id_text(
            b@,
        ) == Some(uuid_text(id)) by {
            lemma_payload_framing(id, secret);
        }
    }
    if n < 64 {
        return Err(TokenError::BadPayload);
    }
    let framed = matches_at(b, 0, prefix.as_slice()) && matches_at(b, 51, middle.as_slice())
        && matches_at(b, n - 2, suffix.as_slice()) && n - 64 <= MAX_SECRET_LEN && all_alnum(
        b,
        62,
        n - 2,
    );
    proof {
        let sec = b@.subrange(62, n - 2);
        assert forall|i: int| 62 <= i < n - 2 implies #[trigger] b@[i] == sec[i - 62] by {}
        if framed {
            assert forall|i: int| 0 <= i < sec.len() implies is_alnum_byte(#[trigger] sec[i]) by {
                assert(b@[i + 62] == sec[i]);
            }
        } else if is_secret(sec) && n - 64 <= MAX_SECRET_LEN {
            assert forall|i: int| 62 <= i < n - 2 implies is_alnum_byte(#[trigger] b@[i]) by {
                assert(sec[i - 62] == b@[i]);
            }
        }
    }
    if !framed {
        return Err(TokenError::BadPayload);
    }
    let id_text = copy_range(b, 15, 51);
    match parse_uuid(id_text.as_slice()) {
        Some(id) => Ok(id),
        None => Err(TokenError::BadPayload),
    }
}

/// Decodes a bearer token to the id of the token it names. Garbage decodes to
/// an error; a token made by [`encode_token`] decodes to its id.
pub fn decode_token(s: &str) -> (r: Result<u128, TokenError>)
    requires
        s.spec_bytes().len() <= isize::MAX,
    ensures
        r == decode_spec(s@),
        forall|id: u128, secret: Seq<u8>|
            is_secret(secret) && s@ == #[trigger] token_text(id, secret) ==> r == Ok::<
                u128,
                TokenError,
            >(id),
{
    match b64url_decode(s) {
        Some(b) => {
            let r = parse_token_payload(b.as_slice());
            proof {
                assert forall|id: u128, secret: Seq<u8>|
                    is_secret(secret) && s@ == #[trigger] token_text(id, secret) implies r == Ok::<
                    u128,
                    TokenError,
                >(id) by {
                    assert(b64url_of(token_payload(id, secret)) == s@);
                    assert(b@ == token_payload(id, secret));
                }
            }
            r
        },
        None => {
            proof {
                assert forall|id: u128, secret: Seq<u8>|
                    is_secret(secret) && s@ == #[trigger] token_text(id, secret) implies false by {
                    assert(b64url_of(token_payload(id, secret)) == s@);
                }
            }
            Err(TokenError::BadEncoding)
        },
    }
}

/// The bearer token for a token id and secret; `None` unless the secret is
/// ASCII letters and digits, at most [`MAX_SECRET_LEN`] of them.
pub fn encode_token(id: u128, secret: &str) -> (r: Option<String>)
    ensures
        is_secret(secret.spec_bytes()) ==> (r matches Some(t) && t@ == token_text(
            id,
            secret.spec_bytes(),
        )),
        !is_secret(secret.spec_bytes()) ==> r is None,
        r matches Some(t) ==> t@.len() <= MAX_TOKEN_TEXT_LEN && is_ascii_chars(t@) && encode_utf8(
            t@,
        ).len() == t@.len(),
{
    let sb = secret.as_bytes();
    if sb.len() > MAX_SECRET_LEN || !all_alnum(sb, 0, sb.len()) {
        return None;
    }
    let mut payload: Vec<u8> = vec![123u8, 34, 116, 111, 107, 101, 110, 95, 117, 117, 105, 100, 34, 58, 34];
    let mut id_text = uuid_to_text(id);
    let mut middle: Vec<u8> = vec![34u8, 44, 34, 116, 111, 107, 101, 110, 34, 58, 34];
    let mut secret_bytes = vstd::slice::slice_to_vec(sb);
    let mut suffix: Vec<u8> = vec![34u8, 125];
    payload.append(&mut id_text);
    payload.append(&mut middle);
    payload.append(&mut secret_bytes);
    payload.append(&mut suffix);
    assert(payload@ =~= token_payload(id, sb@));
    let t = b64url_encode(payload.as_slice());
    proof {
        lemma_b64url_shape(payload@);
        assert(payload@.len() <= 64 + MAX_SECRET_LEN);
        assert(4 * ((payload@.len() + 2) / 3) <= MAX_TOKEN_TEXT_LEN) by (nonlinear_arith)
            requires
                payload@.len() <= 64 + MAX_SECRET_LEN,
                MAX_SECRET_LEN == 4096,
                MAX_TOKEN_TEXT_LEN == 5548,
        ;
        assert forall|i: int| 0 <= i < t@.len() implies '\0' <= #[trigger] t@[i] <= '\u{7f}' by {
            assert(is_b64url_char(t@[i]));
        }
        is_ascii_chars_encode_utf8(t@);
    }
    Some(t)
}

/// Relies on rand's thread_rng sampling rand::distributions::Alphanumeric,
/// which draws from ASCII letters and digits.
#[verifier::external_body]
fn random_alphanumeric(len: usize) -> (r: String)
    ensures
        r@.len() == len,
        forall|i: int| 0 <= i < r@.len() ==> is_alnum_char(#[trigger] r@[i]),
{
    rand::thread_rng().sample_iter(&rand::distributions::Alphanumeric).take(len).map(char::from).collect()
}

/// Whether Argon2 verification accepts `password` against the PHC string
/// `hash`.
pub uninterp spec fn argon2_verifies(hash: Seq<char>, password: Seq<u8>) -> bool;

/// Relies on argon2's PasswordHasher::hash_password with the default
/// parameters and a fresh SaltString::generate salt; the PHC string of the
/// hash, which password-hash's Display writes starting with `$` and which
/// verifies against the password hashed, or `None` where hashing fails.
#[verifier::external_body]
fn hash_secret(secret: &str) -> (r: Option<String>)
    ensures
        r matches Some(h) ==> h@.len() > 0 && h@[0] == '$',
        r matches Some(h) ==> argon2_verifies(h@, secret.spec_bytes()),
{
    let salt = argon2::password_hash::SaltString::generate(&mut rand::thread_rng());
    argon2::Argon2::default().hash_password(secret.as_bytes(), &salt).ok().map(|h| h.to_string())
}

/// A new token secret and the hash of it that the store keeps.
pub struct NewSecret {
    pub secret: String,
    pub hash: String,
}

/// Draws a new secret of [`SECRET_LEN`] letters and digits, and hashes it.
/// The hash, which the store keeps, is never the secret itself.
pub fn new_secret() -> (r: Result<NewSecret, TokenError>)
    ensures
        r matches Ok(n) ==> n.secret@.len() == SECRET_LEN && forall|i: int|
            0 <= i < n.secret@.len() ==> is_alnum_char(#[trigger] n.secret@[i]),
        r matches Ok(n) ==> n.hash@.len() > 0 && n.hash@[0] == '$' && n.hash@ != n.secret@,
        r matches Ok(n) ==> argon2_verifies(n.hash@, encode_utf8(n.secret@)),
        r matches Ok(n) ==> is_secret(encode_utf8(n.secret@)),
        r matches Err(e) ==> e == TokenError::HashFailed,
{
    let secret = random_alphanumeric(SECRET_LEN);
    match hash_secret(secret.as_str()) {
        Some(hash) => {
            proof {
                assert(is_alnum_char(secret@[0]));
                assert(hash@[0] != secret@[0]);
                assert(is_ascii_chars(secret@));
                is_ascii_chars_encode_utf8(secret@);
                let b = encode_utf8(secret@);
                assert forall|i: int| 0 <= i < b.len() implies is_alnum_byte(#[trigger] b[i]) by {
                    assert(is_alnum_char(secret@[i]));
                    assert(b[i] == secret@[i] as u8);
                }
            }
            Ok(NewSecret { secret, hash })
        },
        None => Err(TokenError::HashFailed),
    }
}

} // verus!
