//! The WS-Security header that authenticates a request.

use crate::text;
use base64::prelude::{Engine, BASE64_STANDARD};
use chrono::{DateTime, Utc};
use rand::Rng;
use sha1::{Digest, Sha1};
use vstd::prelude::*;
use vstd::utf8::*;

verus! {

// ---------------------------------------------------------------------------------------------
// Base64
// ---------------------------------------------------------------------------------------------

/// The base64 digit that stands for six bits.
pub open spec fn base64_digit(v: int) -> char
    recommends
        0 <= v < 64,
{
    if v < 26 {
        (0x41 + v) as char
    } else if v < 52 {
        (0x61 + v - 26) as char
    } else if v < 62 {
        (0x30 + v - 52) as char
    } else if v == 62 {
        '+'
    } else {
        '/'
    }
}

/// The byte of `data` at `i`, or zero behind its end.
pub open spec fn byte_at(data: Seq<u8>, i: int) -> int {
    if 0 <= i < data.len() {
        data[i] as int
    } else {
        0
    }
}

/// The character at `k` of `data` in base64: every three bytes make four digits of six bits, and
/// `=` stands for a digit that no bit of `data` falls into.
pub open spec fn base64_char(data: Seq<u8>, k: int) -> char {
    let first = k / 4 * 3;
    let bits = byte_at(data, first) * 0x1_0000 + byte_at(data, first + 1) * 0x100 + byte_at(
        data,
        first + 2,
    );
    if first + k % 4 > data.len() {
        '='
    } else if k % 4 == 0 {
        base64_digit(bits / 0x4_0000)
    } else if k % 4 == 1 {
        base64_digit(bits / 0x1000 % 64)
    } else if k % 4 == 2 {
        base64_digit(bits / 0x40 % 64)
    } else {
        base64_digit(bits % 64)
    }
}

/// `data` in base64, with the standard alphabet and padding.
pub open spec fn base64_text(data: Seq<u8>) -> Seq<char> {
    Seq::new(((data.len() + 2) / 3 * 4) as nat, |k: int| base64_char(data, k))
}

/// `Engine::encode` of `base64::prelude::BASE64_STANDARD`: `data` in base64. The length of what
/// it returns has to fit the memory.
#[verifier::external_body]
fn base64_encode(data: &[u8]) -> (r: String)
    requires
        data@.len() <= usize::MAX / 4,
    ensures
        r@ == base64_text(data@),
{
    BASE64_STANDARD.encode(data)
}

// ---------------------------------------------------------------------------------------------
// SHA-1
// ---------------------------------------------------------------------------------------------

/// The SHA-1 hash of `data`.
pub uninterp spec fn sha1_hash(data: Seq<u8>) -> Seq<u8>;

/// `Digest::digest` of `sha1::Sha1`: the hash of `data`, 20 bytes.
#[verifier::external_body]
fn sha1_digest(data: &[u8]) -> (r: Vec<u8>)
    ensures
        r@ == sha1_hash(data@),
        r@.len() == 20,
{
    Sha1::digest(data).to_vec()
}

// ---------------------------------------------------------------------------------------------
// Time and chance
// ---------------------------------------------------------------------------------------------

/// How the time of a request is written.
pub const TIME_PATTERN: &'static str = "%Y-%m-%dT%H:%M:%SZ";

/// The last second that a date can be written of, at the end of the year 262142, in seconds since
/// the UNIX epoch
pub const LAST_SECOND: i64 = 8_210_266_876_799;

/// The last second of the year 9999, in seconds since the UNIX epoch
pub const LAST_PLAIN_SECOND: i64 = 253_402_300_799;

/// A time in the form `2024-01-31T12:00:00Z`.
pub open spec fn is_plain_time(s: Seq<char>) -> bool {
    &&& s.len() == 20
    &&& s[4] == '-' && s[7] == '-' && s[10] == 'T' && s[13] == ':' && s[16] == ':' && s[19] == 'Z'
    &&& forall|i: int|
        0 <= i < 20 && i != 4 && i != 7 && i != 10 && i != 13 && i != 16 && i != 19
            ==> text::is_digit(#[trigger] s[i])
}

/// `c` can stand in the time of a request.
pub open spec fn is_time_char(c: char) -> bool {
    text::is_digit(c) || c == '+' || c == '-' || c == ':' || c == 'T' || c == 'Z'
}

/// `s` holds nothing but digits, signs and the letters and colons of a time, is long enough for
/// one and ends like one.
pub open spec fn is_time_text(s: Seq<char>) -> bool {
    &&& s.len() >= 20
    &&& s.last() == 'Z'
    &&& forall|i: int| 0 <= i < s.len() ==> is_time_char(#[trigger] s[i])
}

/// What `DateTime::format` makes of a UTC time, given in seconds since the UNIX epoch, and a
/// pattern.
pub uninterp spec fn utc_text(secs: int, pattern: Seq<char>) -> Seq<char>;

/// `chrono::DateTime::from_timestamp` and `DateTime::format`: a UTC time, given in seconds since
/// the UNIX epoch, as the pattern says. A year up to 9999 has four digits, a later one a sign and
/// more digits; all the rest is two digits each and what stands between them in the pattern.
#[verifier::external_body]
fn format_utc(secs: i64, pattern: &str) -> (r: String)
    requires
        0 <= secs <= LAST_SECOND,
        pattern@ == TIME_PATTERN@,
    ensures
        r@ == utc_text(secs as int, pattern@),
        secs <= LAST_PLAIN_SECOND ==> is_plain_time(r@),
        is_time_text(r@),
{
    DateTime::<Utc>::from_timestamp(secs, 0).unwrap_or_default().format(pattern).to_string()
}

/// `chrono::Utc::now`: the current time in seconds since the UNIX epoch. It panics while the clock
/// of the machine stands before the epoch or behind the last second that a date can be written of.
#[verifier::external_body]
fn utc_seconds() -> (r: i64)
    ensures
        0 <= r <= LAST_SECOND,
{
    Utc::now().timestamp()
}

/// `rand::Rng::fill` of `rand::thread_rng`: 16 random bytes. Nothing is said of what they are. It
/// panics if the machine has no source of randomness.
#[verifier::external_body]
fn random_nonce() -> (r: [u8; 16])
{
    let mut nonce = [0u8; 16];
    rand::thread_rng().fill(&mut nonce);
    nonce
}

// ---------------------------------------------------------------------------------------------
// The header
// ---------------------------------------------------------------------------------------------

/// The header up to the user name
pub const HEADER_START: &'static str = r#"<wsse:Security SOAP-ENV:mustUnderstand="true" xmlns:wsse="http://docs.oasis-open.org/wss/2004/01/oasis-200401-wss-wssecurity-secext-1.0.xsd" xmlns:wsu="http://docs.oasis-open.org/wss/2004/01/oasis-200401-wss-wssecurity-utility-1.0.xsd">
            <wsse:UsernameToken wsu:Id="UsernameToken-1">
                <wsse:Username>"#;

/// The header between the user name and the digest
pub const HEADER_PASSWORD: &'static str = r#"</wsse:Username>
                <wsse:Password Type="http://docs.oasis-open.org/wss/2004/01/oasis-200401-wss-username-token-profile-1.0#PasswordDigest">"#;

/// The header between the digest and the nonce
pub const HEADER_NONCE: &'static str = r#"</wsse:Password>
                <wsse:Nonce EncodingType="http://docs.oasis-open.org/wss/2004/01/oasis-200401-wss-soap-message-security-1.0#Base64Binary">"#;

/// The header between the nonce and the time
pub const HEADER_CREATED: &'static str = r#"</wsse:Nonce>
                <wsu:Created>"#;

/// The header behind the time
pub const HEADER_END: &'static str = r#"</wsu:Created>
            </wsse:UsernameToken>
        </wsse:Security>"#;

/// What the digest is the hash of.
pub open spec fn digest_input(
    nonce: Seq<u8>,
    created: Seq<char>,
    password: Seq<char>,
) -> Seq<u8> {
    nonce + encode_utf8(created) + encode_utf8(password)
}

/// The digest that proves knowledge of a password: base64(sha1(nonce + created + password)).
pub open spec fn password_digest(
    nonce: Seq<u8>,
    created: Seq<char>,
    password: Seq<char>,
) -> Seq<char> {
    base64_text(sha1_hash(digest_input(nonce, created, password)))
}

/// The header that authenticates a request made at `created` with `nonce`.
pub open spec fn wsse_header(
    username: Seq<char>,
    password: Seq<char>,
    nonce: Seq<u8>,
    created: Seq<char>,
) -> Seq<char> {
    HEADER_START@ + username + HEADER_PASSWORD@ + password_digest(nonce, created, password)
        + HEADER_NONCE@ + base64_text(nonce) + HEADER_CREATED@ + created + HEADER_END@
}

/// `header` authenticates a request made at the second `secs` with `nonce`. The hash in it has 20
/// bytes, and up to the year 9999 its time has the form `2024-01-31T12:00:00Z`.
pub open spec fn is_wsse_header(
    header: Seq<char>,
    username: Seq<char>,
    password: Seq<char>,
    nonce: Seq<u8>,
    secs: int,
) -> bool {
    &&& nonce.len() == 16
    &&& 0 <= secs <= LAST_SECOND
    &&& header == wsse_header(username, password, nonce, utc_text(secs, TIME_PATTERN@))
    &&& sha1_hash(digest_input(nonce, utc_text(secs, TIME_PATTERN@), password)).len() == 20
    &&& secs <= LAST_PLAIN_SECOND ==> is_plain_time(utc_text(secs, TIME_PATTERN@))
    &&& is_time_text(utc_text(secs, TIME_PATTERN@))
}

/// `header` authenticates a request, made at some time with some nonce.
pub open spec fn is_auth_header(
    header: Seq<char>,
    username: Seq<char>,
    password: Seq<char>,
) -> bool {
    exists|nonce: Seq<u8>, secs: int| is_wsse_header(header, username, password, nonce, secs)
}

// ---------------------------------------------------------------------------------------------
// Laws
// ---------------------------------------------------------------------------------------------

/// `c` can stand in base64.
pub open spec fn is_base64_char(c: char) -> bool {
    ||| 'A' <= c && c <= 'Z'
    ||| 'a' <= c && c <= 'z'
    ||| text::is_digit(c)
    ||| c == '+'
    ||| c == '/'
    ||| c == '='
}

/// The parts of a header that are the same in every request.
pub open spec fn header_frame() -> Seq<char> {
    HEADER_START@ + HEADER_PASSWORD@ + HEADER_NONCE@ + HEADER_CREATED@ + HEADER_END@
}

/// Base64 holds base64 characters only.
pub proof fn lemma_base64_chars(data: Seq<u8>, c: char)
    ensures
        base64_text(data).contains(c) ==> is_base64_char(c),
{
    if base64_text(data).contains(c) {
        let k = choose|k: int| 0 <= k < base64_text(data).len() && base64_text(data)[k] == c;
        assert(c == base64_char(data, k));
    }
}

/// The marks of a time stand in every header already.
proof fn lemma_frame_holds_time_marks()
    ensures
        HEADER_PASSWORD@.contains('-'),
        HEADER_PASSWORD@.contains(':'),
{
    reveal_strlit(
        r#"</wsse:Username>
                <wsse:Password Type="http://docs.oasis-open.org/wss/2004/01/oasis-200401-wss-username-token-profile-1.0#PasswordDigest">"#,
    );
    assert(HEADER_PASSWORD@[6] == ':');
    assert(HEADER_PASSWORD@[71] == '-');
}

/// A header depends on the password only through the digest: passwords with the same digest give
/// the same header.
pub proof fn law_password_only_in_digest(
    username: Seq<char>,
    first: Seq<char>,
    second: Seq<char>,
    nonce: Seq<u8>,
    created: Seq<char>,
)
    requires
        password_digest(nonce, created, first) == password_digest(nonce, created, second),
    ensures
        wsse_header(username, first, nonce, created) == wsse_header(
            username,
            second,
            nonce,
            created,
        ),
{
}

/// A header holds no character but those of the user name, of base64, and of the parts that are
/// the same in every request: what else the password holds is not in it.
pub proof fn law_header_characters(
    header: Seq<char>,
    username: Seq<char>,
    password: Seq<char>,
    c: char,
)
    requires
        is_auth_header(header, username, password),
        header.contains(c),
    ensures
        username.contains(c) || is_base64_char(c) || header_frame().contains(c),
{
    let (nonce, secs) = choose|nonce: Seq<u8>, secs: int|
        is_wsse_header(header, username, password, nonce, secs);
    let created = utc_text(secs, TIME_PATTERN@);
    let digest = password_digest(nonce, created, password);
    lemma_base64_chars(sha1_hash(digest_input(nonce, created, password)), c);
    lemma_base64_chars(nonce, c);
    let a = HEADER_START@ + username;
    let b = a + HEADER_PASSWORD@;
    let d = b + digest;
    let e = d + HEADER_NONCE@;
    let f = e + base64_text(nonce);
    let g = f + HEADER_CREATED@;
    let h = g + created;
    text::lemma_contains_char(h, HEADER_END@, c);
    text::lemma_contains_char(g, created, c);
    text::lemma_contains_char(f, HEADER_CREATED@, c);
    text::lemma_contains_char(e, base64_text(nonce), c);
    text::lemma_contains_char(d, HEADER_NONCE@, c);
    text::lemma_contains_char(b, digest, c);
    text::lemma_contains_char(a, HEADER_PASSWORD@, c);
    text::lemma_contains_char(HEADER_START@, username, c);
    let frame = HEADER_START@ + HEADER_PASSWORD@;
    text::lemma_contains_char(HEADER_START@, HEADER_PASSWORD@, c);
    text::lemma_contains_char(frame, HEADER_NONCE@, c);
    text::lemma_contains_char(frame + HEADER_NONCE@, HEADER_CREATED@, c);
    text::lemma_contains_char(frame + HEADER_NONCE@ + HEADER_CREATED@, HEADER_END@, c);
    if created.contains(c) {
        let i = choose|i: int| 0 <= i < created.len() && created[i] == c;
        assert(is_time_char(created[i]));
        lemma_frame_holds_time_marks();
    }
}

/// The password does not stand in clear in a header, if it holds a character that is neither of
/// the user name nor of base64 nor of the parts that are the same in every request.
pub proof fn law_password_not_in_clear(
    header: Seq<char>,
    username: Seq<char>,
    password: Seq<char>,
    c: char,
)
    requires
        is_auth_header(header, username, password),
        password.contains(c),
        !username.contains(c),
        !is_base64_char(c),
        !header_frame().contains(c),
    ensures
        !text::contains(header, password),
{
    if header.contains(c) {
        law_header_characters(header, username, password, c);
    }
    text::lemma_contains_needs_chars(header, password, c);
}

/// A header says who makes the request, proves the password by the base64 of the hash of the nonce,
/// the time and the password in this order, and tells the nonce in base64 and the time: each stands
/// whole between its tags.
pub proof fn law_header_parts(
    username: Seq<char>,
    password: Seq<char>,
    nonce: Seq<u8>,
    created: Seq<char>,
)
    ensures
        ({
            let header = wsse_header(username, password, nonce, created);
            let hash = sha1_hash(nonce + encode_utf8(created) + encode_utf8(password));
            &&& text::contains(header, "<wsse:Username>"@ + username + "</wsse:Username>"@)
            &&& text::contains(header, "#PasswordDigest\">"@ + base64_text(hash) + "</wsse:Password>"@)
            &&& text::contains(header, "#Base64Binary\">"@ + base64_text(nonce) + "</wsse:Nonce>"@)
            &&& text::contains(header, "<wsu:Created>"@ + created + "</wsu:Created>"@)
        }),
{
    reveal_strlit(
        r#"<wsse:Security SOAP-ENV:mustUnderstand="true" xmlns:wsse="http://docs.oasis-open.org/wss/2004/01/oasis-200401-wss-wssecurity-secext-1.0.xsd" xmlns:wsu="http://docs.oasis-open.org/wss/2004/01/oasis-200401-wss-wssecurity-utility-1.0.xsd">
            <wsse:UsernameToken wsu:Id="UsernameToken-1">
                <wsse:Username>"#,
    );
    reveal_strlit(
        r#"</wsse:Username>
                <wsse:Password Type="http://docs.oasis-open.org/wss/2004/01/oasis-200401-wss-username-token-profile-1.0#PasswordDigest">"#,
    );
    reveal_strlit(
        r#"</wsse:Password>
                <wsse:Nonce EncodingType="http://docs.oasis-open.org/wss/2004/01/oasis-200401-wss-soap-message-security-1.0#Base64Binary">"#,
    );
    reveal_strlit(
        r#"</wsse:Nonce>
                <wsu:Created>"#,
    );
    reveal_strlit(
        r#"</wsu:Created>
            </wsse:UsernameToken>
        </wsse:Security>"#,
    );
    reveal_strlit("<wsse:Username>");
    reveal_strlit("</wsse:Username>");
    reveal_strlit("#PasswordDigest\">");
    reveal_strlit("</wsse:Password>");
    reveal_strlit("#Base64Binary\">");
    reveal_strlit("</wsse:Nonce>");
    reveal_strlit("<wsu:Created>");
    reveal_strlit("</wsu:Created>");
    let header = wsse_header(username, password, nonce, created);
    let hash = sha1_hash(nonce + encode_utf8(created) + encode_utf8(password));
    let digest = base64_text(hash);
    let coded = base64_text(nonce);
    assert(HEADER_START@.subrange(311, 326) =~= "<wsse:Username>"@);
    assert(HEADER_PASSWORD@.subrange(0, 16) =~= "</wsse:Username>"@);
    lemma_part_of(
        header,
        "<wsse:Username>"@ + username + "</wsse:Username>"@,
        Seq::<char>::empty() + HEADER_START@.take(311),
        HEADER_PASSWORD@.skip(16) + digest + HEADER_NONCE@ + coded + HEADER_CREATED@ + created + HEADER_END@,
    );
    assert(HEADER_PASSWORD@.subrange(136, 153) =~= "#PasswordDigest\">"@);
    assert(HEADER_NONCE@.subrange(0, 16) =~= "</wsse:Password>"@);
    lemma_part_of(
        header,
        "#PasswordDigest\">"@ + digest + "</wsse:Password>"@,
        HEADER_START@ + username + HEADER_PASSWORD@.take(136),
        HEADER_NONCE@.skip(16) + coded + HEADER_CREATED@ + created + HEADER_END@,
    );
    assert(HEADER_NONCE@.subrange(140, 155) =~= "#Base64Binary\">"@);
    assert(HEADER_CREATED@.subrange(0, 13) =~= "</wsse:Nonce>"@);
    lemma_part_of(
        header,
        "#Base64Binary\">"@ + coded + "</wsse:Nonce>"@,
        HEADER_START@ + username + HEADER_PASSWORD@ + digest + HEADER_NONCE@.take(140),
        HEADER_CREATED@.skip(13) + created + HEADER_END@,
    );
    assert(HEADER_CREATED@.subrange(30, 43) =~= "<wsu:Created>"@);
    assert(HEADER_END@.subrange(0, 14) =~= "</wsu:Created>"@);
    lemma_part_of(
        header,
        "<wsu:Created>"@ + created + "</wsu:Created>"@,
        HEADER_START@ + username + HEADER_PASSWORD@ + digest + HEADER_NONCE@ + coded + HEADER_CREATED@.take(30),
        HEADER_END@.skip(14),
    );
}

/// A header was made with 16 bytes at a time of the form `2024-01-31T12:00:00Z`, or of one with a
/// longer year from the year 10000 on.
pub open spec fn is_made_with(
    header: Seq<char>,
    username: Seq<char>,
    password: Seq<char>,
    nonce: Seq<u8>,
    secs: int,
) -> bool {
    let created = utc_text(secs, "%Y-%m-%dT%H:%M:%SZ"@);
    &&& header == wsse_header(username, password, nonce, created)
    &&& nonce.len() == 16
    &&& secs >= 0
    &&& secs < 253_402_300_800 ==> is_plain_time(created)
    &&& is_time_text(created)
}

/// Every header that authenticates a user was made like that.
pub proof fn law_auth_header(header: Seq<char>, username: Seq<char>, password: Seq<char>)
    requires
        is_auth_header(header, username, password),
    ensures
        exists|nonce: Seq<u8>, secs: int| #[trigger]
            is_made_with(header, username, password, nonce, secs),
{
    let (nonce, secs) = choose|nonce: Seq<u8>, secs: int|
        is_wsse_header(header, username, password, nonce, secs);
    assert(is_made_with(header, username, password, nonce, secs));
}

/// What stands between two parts is contained.
proof fn lemma_part_of(s: Seq<char>, p: Seq<char>, a: Seq<char>, b: Seq<char>)
    requires
        s =~= a + p + b,
    ensures
        text::contains(s, p),
{
    text::law_occurs_at(a, p, b);
}

/// The six bits that a base64 digit stands for.
pub open spec fn base64_value(c: char) -> int {
    if 'A' <= c && c <= 'Z' {
        c as int - 'A' as int
    } else if 'a' <= c && c <= 'z' {
        c as int - 'a' as int + 26
    } else if '0' <= c && c <= '9' {
        c as int - '0' as int + 52
    } else if c == '+' {
        62
    } else {
        63
    }
}

/// A digit stands for the bits that it was made of.
proof fn lemma_base64_value(v: int)
    requires
        0 <= v < 64,
    ensures
        base64_value(base64_digit(v)) == v,
        base64_digit(v) != '=',
        v == 63 ==> base64_digit(v) == '/',
{
}

/// Base64 can be read back: every three bytes make four digits, whose values are the bits of the
/// bytes; the digits that are left over at the end are those of the bytes left over, filled with
/// zero bits, and `=` fills them up to four.
pub proof fn law_base64(data: Seq<u8>, j: int)
    requires
        0 <= j,
        3 * j < data.len(),
    ensures
        ({
            let t = base64_text(data);
            let a = base64_value(t[4 * j]);
            let b = base64_value(t[4 * j + 1]);
            let c = base64_value(t[4 * j + 2]);
            let d = base64_value(t[4 * j + 3]);
            &&& t.len() % 4 == 0
            &&& 4 * j + 3 < t.len() < 4 * j + 4 + 4 * (data.len() - 3 * j)
            &&& 3 * (t.len() / 4) < data.len() + 3
            &&& 3 * j + 2 < data.len() ==> data[3 * j] * 0x1_0000 + data[3 * j + 1] * 0x100 + data[3
                * j + 2] == a * 0x4_0000 + b * 0x1000 + c * 0x40 + d && t[4 * j + 3] != '='
            &&& 3 * j + 2 == data.len() ==> data[3 * j] * 0x1_0000 + data[3 * j + 1] * 0x100 == a
                * 0x4_0000 + b * 0x1000 + c * 0x40 && t[4 * j + 2] != '=' && t[4 * j + 3] == '='
            &&& 3 * j + 1 == data.len() ==> data[3 * j] * 0x1_0000 == a * 0x4_0000 + b * 0x1000
                && t[4 * j + 2] == '=' && t[4 * j + 3] == '='
        }),
{
    let t = base64_text(data);
    let first = 3 * j;
    let bits = byte_at(data, first) * 0x1_0000 + byte_at(data, first + 1) * 0x100 + byte_at(
        data,
        first + 2,
    );
    assert(4 * j / 4 * 3 == first && (4 * j) % 4 == 0);
    assert((4 * j + 1) / 4 * 3 == first && (4 * j + 1) % 4 == 1);
    assert((4 * j + 2) / 4 * 3 == first && (4 * j + 2) % 4 == 2);
    assert((4 * j + 3) / 4 * 3 == first && (4 * j + 3) % 4 == 3);
    let a = bits / 0x4_0000;
    let b = bits / 0x1000 % 64;
    let c = bits / 0x40 % 64;
    let d = bits % 64;
    assert(0 <= bits < 0x100_0000);
    assert(bits == a * 0x4_0000 + b * 0x1000 + c * 0x40 + d) by {
        let x = bits / 0x40;
        let y = bits / 0x1000;
        assert(x / 64 == y);
        assert(y / 64 == a);
    }
    lemma_base64_value(a);
    lemma_base64_value(b);
    lemma_base64_value(c);
    lemma_base64_value(d);
    assert(4 * j + 3 < t.len());
}

/// Appends `more` to `bytes`.
fn append_bytes(bytes: &mut Vec<u8>, more: &[u8])
    ensures
        final(bytes)@ == old(bytes)@ + more@,
{
    let ghost before = bytes@;
    let mut i: usize = 0;
    while i < more.len()
        invariant
            i <= more.len(),
            bytes@ == before + more@.take(i as int),
        decreases more.len() - i,
    {
        bytes.push(more[i]);
        i += 1;
    }
    assert(more@.take(more@.len() as int) =~= more@);
}

/// The WS-Security header of a request made at `created` with `nonce`
pub fn wsse_auth_header(username: &str, password: &str, nonce: &[u8; 16], created: &str) -> (r:
    String)
    ensures
        r@ == wsse_header(username@, password@, nonce@, created@),
        sha1_hash(digest_input(nonce@, created@, password@)).len() == 20,
{
    let mut input: Vec<u8> = Vec::new();
    append_bytes(&mut input, nonce.as_slice());
    append_bytes(&mut input, created.as_bytes());
    append_bytes(&mut input, password.as_bytes());
    assert(input@ =~= digest_input(nonce@, created@, password@));
    let digest = sha1_digest(input.as_slice());
    let password_digest = base64_encode(digest.as_slice());
    let mut r = HEADER_START.to_owned();
    r.append(username);
    r.append(HEADER_PASSWORD);
    r.append(&password_digest);
    r.append(HEADER_NONCE);
    r.append(&base64_encode(nonce.as_slice()));
    r.append(HEADER_CREATED);
    r.append(created);
    r.append(HEADER_END);
    r
}

/// Generate WS-Security authentication header
pub fn generate_wsse_auth_header(username: &str, password: &str) -> (r: String)
    ensures
        is_auth_header(r@, username@, password@),
{
    let nonce = random_nonce();
    let secs = utc_seconds();
    let created = format_utc(secs, TIME_PATTERN);
    let r = wsse_auth_header(username, password, &nonce, &created);
    assert(is_wsse_header(r@, username@, password@, nonce@, secs as int));
    r
}

} // verus!
