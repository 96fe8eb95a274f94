use vstd::prelude::*;

use crate::errors::Error;
use hmac::{Hmac, Mac};
use sha2::Sha256;
use crate::text::{all_digits, chars_of, decimal, digits_value, digits_value_upto, format_i64, is_digit, lemma_natural_decimal, natural_decimal};

verus! {

/// Name of the cookie that carries the authentication token.
pub const AUTH_TOKEN: &'static str = "test";

/// End of the run of ASCII digits in `s` that starts at `i`.
pub open spec fn digit_run_end(s: Seq<char>, i: int) -> int
    decreases s.len() - i,
{
    if 0 <= i < s.len() && is_digit(s[i]) {
        digit_run_end(s, i + 1)
    } else {
        i
    }
}

/// Index of the first line feed in `s` at or after `i`, or the length of `s`.
pub open spec fn line_end(s: Seq<char>, i: int) -> int
    decreases s.len() - i,
{
    if 0 <= i < s.len() && s[i] != '\n' {
        line_end(s, i + 1)
    } else {
        i
    }
}

/// The largest index in `lo..=hi` that holds a '.', or `lo - 1` when there is none.
pub open spec fn last_dot(s: Seq<char>, lo: int, hi: int) -> int
    decreases hi - lo + 1,
{
    if hi < lo {
        lo - 1
    } else if s[hi] == '.' {
        hi
    } else {
        last_dot(s, lo, hi - 1)
    }
}

pub open spec fn token_prefix() -> Seq<char> {
    seq!['u', 's', 'e', 'r', '-']
}

/// What the token pattern `^user-(\d+)\.(.+)\.(.+)` finds in `t`, with the first group read
/// as an `i64`: the user id, the expiry field and the signature field. The pattern's `.`
/// stops at a line feed, and its greedy groups put the split at the last '.' that leaves both
/// fields non-empty. `None` when the pattern does not match or the id does not fit.
pub open spec fn spec_parse_token(t: Seq<char>) -> Option<(int, Seq<char>, Seq<char>)> {
    let d = digit_run_end(t, 5);
    let a = d + 1;
    let e = line_end(t, a);
    let k = last_dot(t, a + 1, e - 2);
    let id = digits_value(t.subrange(5, d));
    if t.len() >= 5 && t.take(5) == token_prefix() && d > 5 && d < t.len() && t[d] == '.' && k
        >= a + 1 && id <= i64::MAX {
        Some((id, t.subrange(a, k), t.subrange(k + 1, e)))
    } else {
        None
    }
}

/// Where the signature of `t` starts, minus one: the '.' that `spec_parse_token` splits at.
pub open spec fn token_split(t: Seq<char>) -> int {
    let a = digit_run_end(t, 5) + 1;
    last_dot(t, a + 1, line_end(t, a) - 2)
}

/// The signed part of a token: everything before the signature's '.'.
pub open spec fn token_payload(t: Seq<char>) -> Seq<char> {
    t.take(token_split(t))
}

/// The HMAC-SHA256 tag of `message` under `key`.
pub uninterp spec fn hmac_sha256_of(key: Seq<u8>, message: Seq<u8>) -> Seq<u8>;

/// The lower-case hexadecimal digit of `d`, for `0 <= d < 16`.
pub open spec fn hex_digit(d: int) -> char {
    if d < 10 {
        (d + '0' as int) as char
    } else {
        (d - 10 + 'a' as int) as char
    }
}

/// Two lower-case hexadecimal digits per byte, most significant first.
pub open spec fn hex_lower(bytes: Seq<u8>) -> Seq<char>
    decreases bytes.len(),
{
    if bytes.len() == 0 {
        seq![]
    } else {
        hex_lower(bytes.drop_last()) + seq![
            hex_digit(bytes.last() as int / 16),
            hex_digit(bytes.last() as int % 16),
        ]
    }
}

/// The signature of a token's payload under the server's secret: the HMAC-SHA256 tag of the
/// payload's UTF-8 bytes, in hexadecimal.
pub open spec fn token_signature(secret: Seq<u8>, payload: Seq<char>) -> Seq<char> {
    hex_lower(hmac_sha256_of(secret, vstd::utf8::encode_utf8(payload)))
}

/// What checking the cookie `token` gives: the user id of a well-formed token whose
/// signature is that of its payload under `secret`, or why it is refused.
pub open spec fn check_token(token: Option<Seq<char>>, secret: Seq<u8>) -> Result<int, Error> {
    match token {
        None => Err(Error::AuthToken),
        Some(t) => match spec_parse_token(t) {
            None => Err(Error::AuthFailTokenWrongFormat),
            Some((id, _, sign)) => if sign == token_signature(secret, token_payload(t)) {
                Ok(id)
            } else {
                Err(Error::AuthFailSignature)
            },
        },
    }
}

/// The signed part of the token that a login hands out for `user_id`: `user-<id>.exp`.
pub open spec fn token_payload_of(user_id: int) -> Seq<char> {
    token_prefix() + decimal(user_id) + seq!['.', 'e', 'x', 'p']
}

/// The token that a login hands out for `user_id`: its payload, '.', then the payload's
/// signature under `secret`.
pub open spec fn issued_token(user_id: int, secret: Seq<u8>) -> Seq<char> {
    token_payload_of(user_id) + seq!['.'] + token_signature(secret, token_payload_of(user_id))
}

/// The HMAC-SHA256 tag of `message` under `key`, from `hmac::Hmac<sha2::Sha256>`. The tag
/// is 32 bytes long; HMAC takes keys of any length, so keying never fails (the crate's
/// `new_from_slice` always answers `Ok`).
#[verifier::external_body]
fn hmac_sha256(key: &[u8], message: &[u8]) -> (tag: Option<Vec<u8>>)
    ensures
        tag is Some,
        tag.unwrap()@ == hmac_sha256_of(key@, message@),
        tag.unwrap()@.len() == 32,
{
    match <Hmac<Sha256> as Mac>::new_from_slice(key) {
        Ok(mut mac) => {
            mac.update(message);
            Some(mac.finalize().into_bytes().to_vec())
        },
        Err(_) => None,
    }
}

/// The one-character text of the hexadecimal digit `d`.
fn hex_text(d: u8) -> (t: &'static str)
    requires
        d < 16,
    ensures
        t@ == seq![hex_digit(d as int)],
{
    proof {
        reveal_strlit("0"); reveal_strlit("1"); reveal_strlit("2"); reveal_strlit("3");
        reveal_strlit("4"); reveal_strlit("5"); reveal_strlit("6"); reveal_strlit("7");
        reveal_strlit("8"); reveal_strlit("9"); reveal_strlit("a"); reveal_strlit("b");
        reveal_strlit("c"); reveal_strlit("d"); reveal_strlit("e"); reveal_strlit("f");
    }
    if d == 0 { "0" } else if d == 1 { "1" } else if d == 2 { "2" } else if d == 3 { "3" }
    else if d == 4 { "4" } else if d == 5 { "5" } else if d == 6 { "6" } else if d == 7 { "7" }
    else if d == 8 { "8" } else if d == 9 { "9" } else if d == 10 { "a" } else if d == 11 { "b" }
    else if d == 12 { "c" } else if d == 13 { "d" } else if d == 14 { "e" } else { "f" }
}

/// `bytes` in lower-case hexadecimal.
fn to_hex(bytes: &Vec<u8>) -> (h: String)
    ensures
        h@ == hex_lower(bytes@),
{
    let mut h = String::new();
    let mut i: usize = 0;
    while i < bytes.len()
        invariant
            i <= bytes@.len(),
            h@ == hex_lower(bytes@.take(i as int)),
        decreases bytes@.len() - i,
    {
        let b = bytes[i];
        h.append(hex_text(b / 16));
        h.append(hex_text(b % 16));
        assert(bytes@.take(i + 1).drop_last() == bytes@.take(i as int));
        i = i + 1;
    }
    assert(bytes@.take(i as int) == bytes@);
    h
}

/// The signature of `payload` under `secret`.
fn sign(secret: &[u8], payload: &str) -> (signature: String)
    ensures
        signature@ == token_signature(secret@, payload@),
        signature@.len() == 64,
        forall|i: int| 0 <= i < signature@.len() ==> #[trigger] signature@[i] != '.'
            && signature@[i] != '\n',
{
    let tag = hmac_sha256(secret, payload.as_bytes()).unwrap();
    let signature = to_hex(&tag);
    proof {
        lemma_hex_lower(tag@);
    }
    signature
}

/// Hexadecimal text has two digits per byte, none of them a '.' or a line feed.
proof fn lemma_hex_lower(bytes: Seq<u8>)
    ensures
        hex_lower(bytes).len() == 2 * bytes.len(),
        forall|i: int| 0 <= i < hex_lower(bytes).len() ==> {
            let c = #[trigger] hex_lower(bytes)[i];
            ('0' <= c <= '9') || ('a' <= c <= 'f')
        },
    decreases bytes.len(),
{
    if bytes.len() > 0 {
        lemma_hex_lower(bytes.drop_last());
        let b = bytes.last() as int;
        assert(hex_digit(b / 16) as int == if b / 16 < 10 { b / 16 + '0' as int } else { b / 16 - 10 + 'a' as int });
        assert(hex_digit(b % 16) as int == if b % 16 < 10 { b % 16 + '0' as int } else { b % 16 - 10 + 'a' as int });
    }
}

/// Whether `a` equals `b[from..to]`; every character is compared whatever the outcome.
fn same_text(a: &Vec<char>, b: &Vec<char>, from: usize, to: usize) -> (r: bool)
    requires
        from <= to <= b@.len(),
    ensures
        r == (a@ == b@.subrange(from as int, to as int)),
{
    if a.len() != to - from {
        proof {
            assert(a@.len() != b@.subrange(from as int, to as int).len());
        }
        return false;
    }
    let mut same = true;
    let mut i: usize = 0;
    while i < a.len()
        invariant
            i <= a@.len() == to - from,
            to <= b@.len(),
            same == (forall|j: int| 0 <= j < i ==> a@[j] == b@[from + j]),
        decreases a@.len() - i,
    {
        same = same && a[i] == b[from + i];
        i = i + 1;
    }
    proof {
        if same {
            assert(a@ =~= b@.subrange(from as int, to as int));
        } else {
            let j = choose|j: int| 0 <= j < i && a@[j] != b@[from + j];
            assert(a@[j] != b@.subrange(from as int, to as int)[j]);
        }
    }
    same
}

/// Lets a request through only when it carries an authentication cookie whose token is
/// well-formed and signed with `secret`.
pub fn mw_require_auth(token: Option<&str>, secret: &[u8]) -> (r: Result<(), Error>)
    ensures
        r == (match check_token(opt_str(token), secret@) {
            Ok(_) => Ok::<(), Error>(()),
            Err(e) => Err(e),
        }),
{
    match parse_token(token, secret) {
        Ok(_) => Ok(()),
        Err(e) => Err(e),
    }
}

pub open spec fn opt_str(token: Option<&str>) -> Option<Seq<char>> {
    match token {
        Some(t) => Some(t@),
        None => None,
    }
}

/// Reads the user id, expiry and signature out of the authentication cookie's value, and
/// accepts them only when the signature is that of the token's payload under `secret`.
pub fn parse_token(token: Option<&str>, secret: &[u8]) -> (r: Result<(i64, String, String), Error>)
    ensures
        match check_token(opt_str(token), secret@) {
            Ok(_) => r matches Ok((i, e, s)) && spec_parse_token(token.unwrap()@) == Some(
                (i as int, e@, s@),
            ),
            Err(err) => r == Err::<(i64, String, String), Error>(err),
        },
{
    let t = match token {
        None => return Err(Error::AuthToken),
        Some(t) => t,
    };
    let cs = chars_of(t);
    let len = cs.len();
    if !(len >= 5 && cs[0] == 'u' && cs[1] == 's' && cs[2] == 'e' && cs[3] == 'r' && cs[4] == '-') {
        proof {
            if t@.len() >= 5 && t@.take(5) == token_prefix() {
                assert(t@[0] == t@.take(5)[0]);
                assert(t@[1] == t@.take(5)[1]);
                assert(t@[2] == t@.take(5)[2]);
                assert(t@[3] == t@.take(5)[3]);
                assert(t@[4] == t@.take(5)[4]);
            }
        }
        return Err(Error::AuthFailTokenWrongFormat);
    }
    assert(t@.take(5) == token_prefix());
    let mut d: usize = 5;
    while d < len && cs[d] >= '0' && cs[d] <= '9'
        invariant
            5 <= d <= len == cs@.len(),
            cs@ == t@,
            digit_run_end(t@, d as int) == digit_run_end(t@, 5),
            forall|j: int| 5 <= j < d ==> is_digit(#[trigger] t@[j]),
        decreases len - d,
    {
        d = d + 1;
    }
    assert(digit_run_end(t@, d as int) == d);
    if !(d > 5 && d < len && cs[d] == '.') {
        return Err(Error::AuthFailTokenWrongFormat);
    }
    let a = d + 1;
    let mut e: usize = a;
    while e < len && cs[e] != '\n'
        invariant
            a <= e <= len == cs@.len(),
            cs@ == t@,
            line_end(t@, e as int) == line_end(t@, a as int),
        decreases len - e,
    {
        e = e + 1;
    }
    assert(line_end(t@, e as int) == e);
    if e - a < 3 {
        return Err(Error::AuthFailTokenWrongFormat);
    }
    let mut k: usize = e - 2;
    while k > a && cs[k] != '.'
        invariant
            a <= k <= e - 2,
            e <= len == cs@.len(),
            cs@ == t@,
            last_dot(t@, a + 1, k as int) == last_dot(t@, a + 1, e - 2),
        decreases k,
    {
        k = k - 1;
    }
    if k == a {
        return Err(Error::AuthFailTokenWrongFormat);
    }
    assert(all_digits(t@.subrange(5, d as int))) by {
        assert forall|j: int| 0 <= j < d - 5 implies is_digit(#[trigger] t@.subrange(5, d as int)[j]) by {
            assert(t@.subrange(5, d as int)[j] == t@[j + 5]);
        }
    }
    let id = match digits_value_upto(&cs, 5, d, 0x7fff_ffff_ffff_ffff) {
        None => return Err(Error::AuthFailTokenWrongFormat),
        Some(v) => v as i64,
    };
    let expected = chars_of(sign(secret, t.substring_char(0, k)).as_str());
    if !same_text(&expected, &cs, k + 1, e) {
        return Err(Error::AuthFailSignature);
    }
    let exp = String::from_str(t.substring_char(a, k));
    let sign = String::from_str(t.substring_char(k + 1, e));
    Ok((id, exp, sign))
}

/// The authentication token handed out at login for `user_id`: `user-<id>.exp`, then '.',
/// then the signature of that payload under `secret`. For a non-negative id the token
/// checks back as `user_id`.
pub fn make_auth_token(user_id: i64, secret: &[u8]) -> (token: String)
    ensures
        token@ == issued_token(user_id as int, secret@),
        user_id >= 0 ==> check_token(Some(token@), secret@) == Ok::<int, Error>(user_id as int),
{
    let mut payload = String::from_str("user-");
    payload.append(format_i64(user_id).as_str());
    payload.append(".exp");
    proof {
        reveal_strlit("user-");
        reveal_strlit(".exp");
        reveal_strlit(".");
    }
    assert(payload@ =~= token_payload_of(user_id as int));
    let signature = sign(secret, payload.as_str());
    let mut token = payload;
    token.append(".");
    token.append(signature.as_str());
    assert(token@ =~= issued_token(user_id as int, secret@));
    proof {
        if user_id >= 0 {
            lemma_signed_token_parses(user_id as int, signature@);
        }
    }
    token
}

/// A run of digits from `i` up to a non-digit (or the end) at `j` ends at `j`.
proof fn lemma_digit_run_end(s: Seq<char>, i: int, j: int)
    requires
        0 <= i <= j <= s.len(),
        forall|k: int| i <= k < j ==> is_digit(#[trigger] s[k]),
        j == s.len() || !is_digit(s[j]),
    ensures
        digit_run_end(s, i) == j,
    decreases j - i,
{
    if i < j {
        lemma_digit_run_end(s, i + 1, j);
    }
}

/// A stretch without line feeds from `i` up to a line feed (or the end) at `j` ends at `j`.
proof fn lemma_line_end(s: Seq<char>, i: int, j: int)
    requires
        0 <= i <= j <= s.len(),
        forall|k: int| i <= k < j ==> #[trigger] s[k] != '\n',
        j == s.len() || s[j] == '\n',
    ensures
        line_end(s, i) == j,
    decreases j - i,
{
    if i < j {
        lemma_line_end(s, i + 1, j);
    }
}

/// The largest '.' position in `lo..=hi` is `j` when `s[j]` is a '.' and none follows it
/// up to `hi`.
proof fn lemma_last_dot(s: Seq<char>, lo: int, hi: int, j: int)
    requires
        lo <= j <= hi < s.len(),
        0 <= lo,
        s[j] == '.',
        forall|m: int| j < m <= hi ==> #[trigger] s[m] != '.',
    ensures
        last_dot(s, lo, hi) == j,
    decreases hi - j,
{
    if hi > j {
        lemma_last_dot(s, lo, hi - 1, j);
    }
}

/// A token made of the payload for a non-negative user id, '.', and a non-empty signature
/// without '.' or line feed reads back as that id, with expiry "exp", that signature and
/// that payload.
pub proof fn lemma_signed_token_parses(user_id: int, signature: Seq<char>)
    requires
        0 <= user_id <= i64::MAX,
        signature.len() >= 1,
        forall|i: int| 0 <= i < signature.len() ==> #[trigger] signature[i] != '.'
            && signature[i] != '\n',
    ensures
        ({
            let t = token_payload_of(user_id) + seq!['.'] + signature;
            &&& spec_parse_token(t) == Some((user_id, seq!['e', 'x', 'p'], signature))
            &&& token_payload(t) == token_payload_of(user_id)
        }),
{
    let dg = natural_decimal(user_id as nat);
    lemma_natural_decimal(user_id as nat);
    let t = token_payload_of(user_id) + seq!['.'] + signature;
    let n = dg.len() as int;
    assert(decimal(user_id) == dg);
    assert(t.len() == n + 10 + signature.len());
    assert(t.take(5) =~= token_prefix());
    assert forall|k: int| 5 <= k < 5 + n implies is_digit(#[trigger] t[k]) by {
        assert(t[k] == dg[k - 5]);
    }
    assert(t[5 + n] == '.');
    lemma_digit_run_end(t, 5, 5 + n);
    assert(t.subrange(5, 5 + n) =~= dg);
    let a = 5 + n + 1;
    assert forall|k: int| a <= k < t.len() implies #[trigger] t[k] != '\n' by {
        if k >= a + 4 {
            assert(t[k] == signature[k - a - 4]);
        }
    }
    lemma_line_end(t, a, t.len() as int);
    assert forall|m: int| a + 3 < m <= t.len() - 2 implies #[trigger] t[m] != '.' by {
        assert(t[m] == signature[m - a - 4]);
    }
    lemma_last_dot(t, a + 1, t.len() - 2, a + 3);
    assert(t.subrange(a, a + 3) =~= seq!['e', 'x', 'p']);
    assert(t.subrange(a + 4, t.len() as int) =~= signature);
    assert(t.take(a + 3) =~= token_payload_of(user_id));
}

} // verus!
