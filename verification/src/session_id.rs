//! Which identifiers a session may have.

use crate::error::MacpError;
use crate::text::same;
use vstd::prelude::*;
use vstd::utf8::{encode_utf8, is_ascii_chars};

verus! {

/// The lower-case hexadecimal digit with the value.
pub open spec fn hex_digit(n: int) -> char {
    if n < 10 {
        (n + '0' as int) as char
    } else {
        (n - 10 + 'a' as int) as char
    }
}

/// The value of a hexadecimal digit of either case.
pub open spec fn hex_value(c: char) -> Option<int> {
    if '0' <= c <= '9' {
        Some(c as int - '0' as int)
    } else if 'a' <= c <= 'f' {
        Some(c as int - 'a' as int + 10)
    } else if 'A' <= c <= 'F' {
        Some(c as int - 'A' as int + 10)
    } else {
        None
    }
}

/// Half a byte: the `j`-th hexadecimal digit of the bytes.
pub open spec fn nibble(bytes: Seq<u8>, j: int) -> int {
    if j % 2 == 0 {
        bytes[j / 2] as int / 16
    } else {
        bytes[j / 2] as int % 16
    }
}

/// Where the `j`-th digit of a hyphenated UUID stands.
pub open spec fn digit_place(j: int) -> int {
    if j < 8 {
        j
    } else if j < 12 {
        j + 1
    } else if j < 16 {
        j + 2
    } else if j < 20 {
        j + 3
    } else {
        j + 4
    }
}

/// Whether hyphens stand where a hyphenated UUID has them.
pub open spec fn hyphens_in_place(s: Seq<char>) -> bool {
    s[8] == '-' && s[13] == '-' && s[18] == '-' && s[23] == '-'
}

/// Whether the text is a UUID in hyphenated form, in digits of either case.
pub open spec fn is_hyphenated(s: Seq<char>) -> bool {
    &&& s.len() == 36
    &&& hyphens_in_place(s)
    &&& forall|j: int| 0 <= j < 32 ==> hex_value(#[trigger] s[digit_place(j)]) is Some
}

/// `uuid::Uuid::parse_str` on a text of 36 bytes: the bytes of the UUID that it
/// writes in hyphenated form, and `None` where it writes none.
#[verifier::external_body]
fn parse_uuid(s: &str) -> (r: Option<[u8; 16]>)
    requires
        encode_utf8(s@).len() == 36,
    ensures
        r is Some <==> is_hyphenated(s@),
        r is Some ==> forall|j: int|
            0 <= j < 32 ==> #[trigger] nibble(r->0@, j) == hex_value(s@[digit_place(j)])->0,
{
    uuid::Uuid::parse_str(s).ok().map(|id| id.into_bytes())
}

/// `uuid::fmt::Hyphenated`, as `Uuid::as_hyphenated` gives it: the hyphenated
/// form of the UUID, in lower case.
#[verifier::external_body]
fn hyphenated(bytes: [u8; 16]) -> (r: String)
    ensures
        r@.len() == 36,
        hyphens_in_place(r@),
        forall|j: int|
            0 <= j < 32 ==> #[trigger] r@[digit_place(j)] == hex_digit(nibble(bytes@, j)),
{
    uuid::Uuid::from_bytes(bytes).as_hyphenated().to_string()
}

/// The versions of UUIDs that the rules tell apart.
#[derive(Clone, Copy, Debug, PartialEq, Eq, Structural)]
pub enum UuidVersion {
    Random,
    SortRand,
    Other,
}

/// `uuid::Uuid::get_version`: version 4 is `Random`, version 7 `SortRand`; the
/// version is the digit at the head of the third group.
#[verifier::external_body]
fn uuid_version(bytes: [u8; 16]) -> (r: UuidVersion)
    ensures
        r is Random <==> nibble(bytes@, 12) == 4,
        r is SortRand <==> nibble(bytes@, 12) == 7,
{
    match uuid::Uuid::from_bytes(bytes).get_version() {
        Some(uuid::Version::Random) => UuidVersion::Random,
        Some(uuid::Version::SortRand) => UuidVersion::SortRand,
        _ => UuidVersion::Other,
    }
}

/// Whether a hyphenated UUID is in the canonical form: digits in lower case,
/// version 4 or 7.
pub open spec fn is_canonical_uuid(s: Seq<char>) -> bool {
    &&& is_hyphenated(s)
    &&& forall|j: int| 0 <= j < 32 ==> !('A' <= #[trigger] s[digit_place(j)] <= 'F')
    &&& (s[14] == '4' || s[14] == '7')
}

/// Whether the character may stand in a base64url token.
pub open spec fn is_base64url(c: char) -> bool {
    'a' <= c <= 'z' || 'A' <= c <= 'Z' || '0' <= c <= '9' || c == '_' || c == '-'
}

/// Whether the text is a base64url token of at least 22 characters.
pub open spec fn is_token(s: Seq<char>) -> bool {
    &&& s.len() >= 22
    &&& forall|i: int| 0 <= i < s.len() ==> is_base64url(#[trigger] s[i])
}

/// Whether a session may have the identifier: a UUID has to be canonical, and
/// anything else a base64url token.
pub open spec fn is_acceptable_id(s: Seq<char>) -> bool {
    if is_hyphenated(s) {
        is_canonical_uuid(s)
    } else {
        is_token(s)
    }
}

proof fn hex_digit_value(n: int)
    requires
        0 <= n < 16,
    ensures
        hex_value(hex_digit(n)) == Some(n),
        !('A' <= hex_digit(n) <= 'F'),
        n == 4 <==> hex_digit(n) == '4',
        n == 7 <==> hex_digit(n) == '7',
{
}

proof fn lower_case_digit(c: char)
    requires
        hex_value(c) is Some,
        !('A' <= c <= 'F'),
    ensures
        hex_digit(hex_value(c)->0) == c,
{
}

proof fn every_place(s: Seq<char>, i: int) -> (j: int)
    requires
        0 <= i < 36,
        i != 8 && i != 13 && i != 18 && i != 23,
    ensures
        0 <= j < 32,
        digit_place(j) == i,
{
    if i < 8 {
        i
    } else if i < 13 {
        i - 1
    } else if i < 18 {
        i - 2
    } else if i < 23 {
        i - 3
    } else {
        i - 4
    }
}

/// Whether the text consists of base64url characters.
fn all_base64url(s: &str) -> (r: bool)
    ensures
        r == (forall|i: int| 0 <= i < s@.len() ==> is_base64url(#[trigger] s@[i])),
{
    let n: usize = s.unicode_len();
    let mut i: usize = 0;
    while i < n
        invariant
            n == s@.len(),
            i <= n,
            forall|j: int| 0 <= j < i ==> is_base64url(#[trigger] s@[j]),
        decreases n - i,
    {
        let c: char = s.get_char(i);
        let fits: bool = ('a' <= c && c <= 'z') || ('A' <= c && c <= 'Z') || ('0' <= c && c <= '9')
            || c == '_' || c == '-';
        if !fits {
            assert(!is_base64url(s@[i as int]));
            return false;
        }
        i = i + 1;
    }
    true
}

/// Whether the text holds a hyphen.
fn has_hyphen(s: &str) -> (r: bool)
    ensures
        r == s@.contains('-'),
{
    let n: usize = s.unicode_len();
    let mut i: usize = 0;
    while i < n
        invariant
            n == s@.len(),
            i <= n,
            forall|j: int| 0 <= j < i ==> #[trigger] s@[j] != '-',
        decreases n - i,
    {
        if s.get_char(i) == '-' {
            assert(s@[i as int] == '-');
            return true;
        }
        i = i + 1;
    }
    false
}

proof fn token_bytes(s: Seq<char>)
    requires
        forall|i: int| 0 <= i < s.len() ==> is_base64url(#[trigger] s[i]),
    ensures
        encode_utf8(s).len() == s.len(),
{
    assert(is_ascii_chars(s));
    vstd::utf8::is_ascii_chars_encode_utf8(s);
}

proof fn hyphenated_bytes(s: Seq<char>)
    requires
        is_hyphenated(s),
    ensures
        encode_utf8(s).len() == 36,
        s.contains('-'),
{
    assert forall|i: int| 0 <= i < s.len() implies is_base64url(#[trigger] s[i]) by {
        if i != 8 && i != 13 && i != 18 && i != 23 {
            let j = every_place(s, i);
            assert(hex_value(s[digit_place(j)]) is Some);
        }
    }
    token_bytes(s);
    assert(s[8] == '-');
}

/// Checks that a session may have the identifier: a UUID of version 4 or 7 in
/// hyphenated lower-case form, or a base64url token of 22 characters or more. A
/// text that is a UUID in another form is refused, and not taken as a token.
pub fn validate_session_id_for_acceptance(session_id: &str) -> (r: Result<(), MacpError>)
    ensures
        r == if is_acceptable_id(session_id@) {
            Ok::<(), MacpError>(())
        } else {
            Err(MacpError::InvalidSessionId)
        },
{
    if session_id.is_empty() {
        return Err(MacpError::InvalidSessionId);
    }
    proof {
        if is_hyphenated(session_id@) {
            hyphenated_bytes(session_id@);
        }
    }
    if session_id.as_bytes().len() == 36 && has_hyphen(session_id) {
        if let Some(bytes) = parse_uuid(session_id) {
            let canonical: String = hyphenated(bytes);
            let form_kept: bool = same(canonical.as_str(), session_id);
            let version: UuidVersion = uuid_version(bytes);
            proof {
                canonical_form(session_id@, bytes@, canonical@);
            }
            if form_kept {
                match version {
                    UuidVersion::Random | UuidVersion::SortRand => {
                        return Ok(());
                    },
                    UuidVersion::Other => {},
                }
            }
            return Err(MacpError::InvalidSessionId);
        }
    }
    let all_fit: bool = all_base64url(session_id);
    proof {
        if all_fit {
            token_bytes(session_id@);
        }
    }
    if session_id.as_bytes().len() >= 22 && all_fit {
        return Ok(());
    }
    Err(MacpError::InvalidSessionId)
}

proof fn canonical_form(s: Seq<char>, bytes: Seq<u8>, canonical: Seq<char>)
    requires
        is_hyphenated(s),
        bytes.len() == 16,
        forall|j: int| 0 <= j < 32 ==> #[trigger] nibble(bytes, j) == hex_value(s[digit_place(j)])->0,
        canonical.len() == 36,
        hyphens_in_place(canonical),
        forall|j: int|
            0 <= j < 32 ==> #[trigger] canonical[digit_place(j)] == hex_digit(nibble(bytes, j)),
    ensures
        is_canonical_uuid(s) <==> (canonical == s && (nibble(bytes, 12) == 4 || nibble(bytes, 12)
            == 7)),
{
    assert(digit_place(12) == 14);
    assert(nibble(bytes, 12) == hex_value(s[digit_place(12)])->0);
    assert(canonical[digit_place(12)] == hex_digit(nibble(bytes, 12)));
    hex_digit_value(nibble(bytes, 12));
    if is_canonical_uuid(s) {
        assert forall|i: int| 0 <= i < 36 implies canonical[i] == s[i] by {
            if i != 8 && i != 13 && i != 18 && i != 23 {
                let j = every_place(s, i);
                assert(nibble(bytes, j) == hex_value(s[digit_place(j)])->0);
                lower_case_digit(s[digit_place(j)]);
                assert(canonical[digit_place(j)] == hex_digit(nibble(bytes, j)));
            }
        }
        assert(canonical =~= s);
        assert(hex_value('4') == Some(4int));
        assert(hex_value('7') == Some(7int));
    }
    if canonical == s {
        assert forall|j: int| 0 <= j < 32 implies !('A' <= #[trigger] s[digit_place(j)] <= 'F') by {
            assert(nibble(bytes, j) == hex_value(s[digit_place(j)])->0);
            assert(canonical[digit_place(j)] == hex_digit(nibble(bytes, j)));
            hex_digit_value(nibble(bytes, j));
        }
    }
}

/// An identifier that is accepted can stand in a URL as it is, and is at least 22
/// characters long.
pub proof fn accepted_identifiers_are_safe(s: Seq<char>, i: int)
    requires
        is_acceptable_id(s),
        0 <= i < s.len(),
    ensures
        s.len() >= 22,
        'a' <= s[i] <= 'z' || 'A' <= s[i] <= 'Z' || '0' <= s[i] <= '9' || s[i] == '_' || s[i]
            == '-',
{
    if is_hyphenated(s) {
        if i != 8 && i != 13 && i != 18 && i != 23 {
            let j = every_place(s, i);
            assert(hex_value(s[digit_place(j)]) is Some);
        }
    } else {
        assert(is_base64url(s[i]));
    }
}

/// Every token of 22 characters or more that can stand in a URL is accepted, unless
/// it looks like a UUID.
pub proof fn safe_tokens_are_accepted(s: Seq<char>)
    requires
        s.len() >= 22,
        forall|i: int|
            0 <= i < s.len() ==> 'a' <= #[trigger] s[i] <= 'z' || 'A' <= s[i] <= 'Z' || '0' <= s[i]
                <= '9' || s[i] == '_' || s[i] == '-',
        s.len() != 36 || s[8] != '-' || s[13] != '-' || s[18] != '-' || s[23] != '-' || exists|
            i: int,
        |
            0 <= i < 36 && i != 8 && i != 13 && i != 18 && i != 23 && !('0' <= #[trigger] s[i]
                <= '9') && !('a' <= s[i] <= 'f') && !('A' <= s[i] <= 'F'),
    ensures
        is_acceptable_id(s),
{
    if is_hyphenated(s) {
        let i = choose|i: int|
            0 <= i < 36 && i != 8 && i != 13 && i != 18 && i != 23 && !('0' <= #[trigger] s[i]
                <= '9') && !('a' <= s[i] <= 'f') && !('A' <= s[i] <= 'F');
        let j = every_place(s, i);
        assert(hex_value(s[digit_place(j)]) is Some);
    }
}

/// What looks like a UUID is accepted exactly where it is of version 4 or 7 and has
/// no digit in upper case.
pub proof fn uuids_are_of_two_versions(s: Seq<char>)
    requires
        s.len() == 36,
        s[8] == '-' && s[13] == '-' && s[18] == '-' && s[23] == '-',
        forall|i: int|
            0 <= i < 36 && i != 8 && i != 13 && i != 18 && i != 23 ==> '0' <= #[trigger] s[i]
                <= '9' || 'a' <= s[i] <= 'f' || 'A' <= s[i] <= 'F',
    ensures
        is_acceptable_id(s) <==> (s[14] == '4' || s[14] == '7') && forall|i: int|
            0 <= i < 36 ==> !('A' <= #[trigger] s[i] <= 'F'),
{
    assert forall|j: int| 0 <= j < 32 implies hex_value(#[trigger] s[digit_place(j)]) is Some by {
        assert('0' <= s[digit_place(j)]);
    }
    assert(is_hyphenated(s));
    if is_acceptable_id(s) {
        assert forall|i: int| 0 <= i < 36 implies !('A' <= #[trigger] s[i] <= 'F') by {
            if i != 8 && i != 13 && i != 18 && i != 23 {
                let j = every_place(s, i);
                assert(!('A' <= s[digit_place(j)] <= 'F'));
            }
        }
    }
}

} // verus!
