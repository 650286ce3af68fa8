//! The hash of a commitment.
//!
//! A commitment has one canonical form: a JSON object with its members in the
//! order of their names and as little escaping as JSON allows. The hash is the
//! SHA-256 of a label and that form.

use crate::pb::commitment::{CommitmentPayload, CommitmentPayloadView, CommitmentRefView};
use crate::session_id::hex_value;
use crate::text::utf8_injective;
use sha2::Digest;
use vstd::prelude::*;
use vstd::string::*;
use vstd::utf8::encode_utf8;

verus! {

/// What the hashed bytes start with. It stands for the canonical form below; any
/// other form needs another label.
const LABEL: &'static str = "macp-commitment-hash/1";

// ---------------------------------------------------------------------------
// Hexadecimal digits
// ---------------------------------------------------------------------------

/// The hexadecimal digit of a number below 16.
pub open spec fn hex_digit(n: int) -> char {
    "0123456789abcdef"@[n]
}

/// The two hexadecimal digits of a byte.
pub open spec fn hex_byte(b: u8) -> Seq<char> {
    seq![hex_digit(b as int / 16), hex_digit(b as int % 16)]
}

/// The hexadecimal digits of the bytes.
pub open spec fn hex(bytes: Seq<u8>) -> Seq<char> {
    Seq::new(
        2 * bytes.len(),
        |i: int|
            if i % 2 == 0 {
                hex_digit(bytes[i / 2] as int / 16)
            } else {
                hex_digit(bytes[i / 2] as int % 16)
            },
    )
}

fn to_hex_digit(n: u8) -> (r: char)
    requires
        n < 16,
    ensures
        r == hex_digit(n as int),
{
    proof {
        reveal_strlit("0123456789abcdef");
    }
    match n {
        0 => '0',
        1 => '1',
        2 => '2',
        3 => '3',
        4 => '4',
        5 => '5',
        6 => '6',
        7 => '7',
        8 => '8',
        9 => '9',
        10 => 'a',
        11 => 'b',
        12 => 'c',
        13 => 'd',
        14 => 'e',
        _ => 'f',
    }
}

proof fn hex_digit_distinct(a: int, b: int)
    requires
        0 <= a < 16,
        0 <= b < 16,
        hex_digit(a) == hex_digit(b),
    ensures
        a == b,
{
    reveal_strlit("0123456789abcdef");
}

/// The bytes can be told from their digits.
pub proof fn hex_distinct(a: Seq<u8>, b: Seq<u8>)
    requires
        hex(a) == hex(b),
    ensures
        a == b,
{
    assert(hex(a).len() == 2 * a.len());
    assert(hex(b).len() == 2 * b.len());
    assert forall|i: int| 0 <= i < a.len() implies a[i] == b[i] by {
        let even = 2 * i;
        let odd = 2 * i + 1;
        assert(even / 2 == i && even % 2 == 0);
        assert(odd / 2 == i && odd % 2 == 1);
        assert(hex(a)[even] == hex_digit(a[i] as int / 16));
        assert(hex(b)[even] == hex_digit(b[i] as int / 16));
        assert(hex(a)[odd] == hex_digit(a[i] as int % 16));
        assert(hex(b)[odd] == hex_digit(b[i] as int % 16));
        hex_digit_distinct(a[i] as int / 16, b[i] as int / 16);
        hex_digit_distinct(a[i] as int % 16, b[i] as int % 16);
    }
    assert(a =~= b);
}

// ---------------------------------------------------------------------------
// Strings
// ---------------------------------------------------------------------------

/// How a character is written in a string: with a short escape where it has one,
/// by its number where it is another control character, and else as it is.
pub open spec fn escaped(c: char) -> Seq<char> {
    if c == '"' {
        seq!['\\', '"']
    } else if c == '\\' {
        seq!['\\', '\\']
    } else if c == '\u{08}' {
        seq!['\\', 'b']
    } else if c == '\t' {
        seq!['\\', 't']
    } else if c == '\n' {
        seq!['\\', 'n']
    } else if c == '\u{0C}' {
        seq!['\\', 'f']
    } else if c == '\r' {
        seq!['\\', 'r']
    } else if (c as u32) < 0x20 {
        seq!['\\', 'u', '0', '0', hex_digit(c as int / 16), hex_digit(c as int % 16)]
    } else {
        seq![c]
    }
}

/// How the characters are written in a string.
pub open spec fn escaped_all(s: Seq<char>) -> Seq<char>
    decreases s.len(),
{
    if s.len() == 0 {
        seq![]
    } else {
        escaped(s[0]) + escaped_all(s.drop_first())
    }
}

/// The text as a string of the canonical form.
pub open spec fn json_string(s: Seq<char>) -> Seq<char> {
    seq!['"'] + escaped_all(s) + seq!['"']
}

proof fn escaped_all_next(s: Seq<char>, c: char)
    ensures
        escaped_all(s.push(c)) == escaped_all(s) + escaped(c),
    decreases s.len(),
{
    let t = s.push(c);
    if s.len() == 0 {
        assert(t.drop_first() =~= seq![]);
        assert(escaped_all(t.drop_first()) =~= seq![]);
        assert(escaped_all(t) =~= escaped(c));
        assert(escaped_all(s) + escaped(c) =~= escaped(c));
    } else {
        assert(t.drop_first() =~= s.drop_first().push(c));
        escaped_all_next(s.drop_first(), c);
        assert(escaped_all(t) =~= escaped_all(s) + escaped(c));
    }
}

fn push_escaped(out: &mut String, c: char)
    ensures
        final(out)@ == old(out)@ + escaped(c),
{
    let ghost before = out@;
    if c == '"' || c == '\\' {
        out.push('\\');
        out.push(c);
    } else if c == '\u{08}' {
        out.push('\\');
        out.push('b');
    } else if c == '\t' {
        out.push('\\');
        out.push('t');
    } else if c == '\n' {
        out.push('\\');
        out.push('n');
    } else if c == '\u{0C}' {
        out.push('\\');
        out.push('f');
    } else if c == '\r' {
        out.push('\\');
        out.push('r');
    } else if (c as u32) < 0x20 {
        let n: u8 = c as u8;
        out.push('\\');
        out.push('u');
        out.push('0');
        out.push('0');
        out.push(to_hex_digit(n / 16));
        out.push(to_hex_digit(n % 16));
    } else {
        out.push(c);
    }
    assert(out@ =~= before + escaped(c));
}

/// Appends the text as a string of the canonical form, with its quotes.
pub fn push_json_string(out: &mut String, value: &str)
    ensures
        final(out)@ == old(out)@ + json_string(value@),
{
    let ghost before = out@;
    out.push('"');
    assert(out@ =~= before + seq!['"'] + escaped_all(value@.take(0)));
    for c in iter: value.chars()
        invariant
            iter.seq() == value@,
            out@ == before + seq!['"'] + escaped_all(value@.take(iter.index())),
    {
        proof {
            let i = iter.index();
            assert(value@.take(i + 1) =~= value@.take(i).push(value@[i]));
            escaped_all_next(value@.take(i), value@[i]);
        }
        push_escaped(out, c);
        assert(out@ =~= before + seq!['"'] + escaped_all(value@.take(iter.index() + 1)));
    }
    assert(value@.take(value@.len() as int) =~= value@);
    out.push('"');
    assert(out@ =~= before + json_string(value@));
}

proof fn escapes_start(c: char)
    ensures
        escaped(c).len() >= 1,
        escaped(c)[0] != '"',
{
}

proof fn escapes_prefix_free(a: char, x: Seq<char>, b: char, y: Seq<char>)
    requires
        escaped(a) + x == escaped(b) + y,
    ensures
        a == b,
        x == y,
{
    let l = escaped(a) + x;
    let r = escaped(b) + y;
    assert(l[0] == escaped(a)[0]);
    assert(r[0] == escaped(b)[0]);
    if escaped(a).len() >= 2 {
        assert(l[1] == escaped(a)[1]);
    }
    if escaped(b).len() >= 2 {
        assert(r[1] == escaped(b)[1]);
    }
    if escaped(a).len() == 6 && escaped(b).len() == 6 {
        assert(l[4] == escaped(a)[4]);
        assert(r[4] == escaped(b)[4]);
        assert(l[5] == escaped(a)[5]);
        assert(r[5] == escaped(b)[5]);
        hex_digit_distinct(a as int / 16, b as int / 16);
        hex_digit_distinct(a as int % 16, b as int % 16);
        assert(a as int == b as int);
    }
    assert(a == b);
    let n = escaped(a).len() as int;
    assert(l.skip(n) =~= x);
    assert(r.skip(n) =~= y);
}

/// The character that a string goes on with, and how many characters write it.
pub open spec fn unescaped(s: Seq<char>) -> Option<(char, nat)> {
    if s.len() == 0 {
        None
    } else if s[0] != '\\' {
        Some((s[0], 1))
    } else if s.len() < 2 {
        None
    } else if s[1] == '"' || s[1] == '\\' {
        Some((s[1], 2))
    } else if s[1] == 'b' {
        Some(('\u{08}', 2))
    } else if s[1] == 't' {
        Some(('\t', 2))
    } else if s[1] == 'n' {
        Some(('\n', 2))
    } else if s[1] == 'f' {
        Some(('\u{0C}', 2))
    } else if s[1] == 'r' {
        Some(('\r', 2))
    } else if s[1] == 'u' && s.len() >= 6 && s[2] == '0' && s[3] == '0' {
        match (hex_value(s[4]), hex_value(s[5])) {
            (Some(high), Some(low)) => Some(((16 * high + low) as char, 6)),
            _ => None,
        }
    } else {
        None
    }
}

/// The text that a string holds from a place on, and what follows its closing
/// quote.
pub open spec fn string_body(s: Seq<char>) -> Option<(Seq<char>, Seq<char>)>
    decreases s.len(),
{
    if s.len() == 0 {
        None
    } else if s[0] == '"' {
        Some((seq![], s.drop_first()))
    } else {
        match unescaped(s) {
            Some((c, n)) => if 0 < n <= s.len() {
                match string_body(s.skip(n as int)) {
                    Some((text, rest)) => Some((seq![c] + text, rest)),
                    None => None,
                }
            } else {
                None
            },
            None => None,
        }
    }
}

/// The text that a string of the canonical form holds, and what follows it.
pub open spec fn string_value(s: Seq<char>) -> Option<(Seq<char>, Seq<char>)> {
    if s.len() > 0 && s[0] == '"' {
        string_body(s.drop_first())
    } else {
        None
    }
}

proof fn escape_reads_back(c: char, rest: Seq<char>)
    ensures
        unescaped(escaped(c) + rest) == Some((c, escaped(c).len())),
        escaped(c).len() > 0,
        (escaped(c) + rest)[0] != '"',
{
    let s = escaped(c) + rest;
    escapes_start(c);
    assert(s[0] == escaped(c)[0]);
    if escaped(c).len() >= 2 {
        assert(s[1] == escaped(c)[1]);
    }
    if escaped(c).len() == 6 {
        reveal_strlit("0123456789abcdef");
        assert(s[2] == escaped(c)[2]);
        assert(s[3] == escaped(c)[3]);
        assert(s[4] == escaped(c)[4]);
        assert(s[5] == escaped(c)[5]);
        assert(hex_value(hex_digit(c as int / 16)) == Some(c as int / 16));
        assert(hex_value(hex_digit(c as int % 16)) == Some(c as int % 16));
        assert(16 * (c as int / 16) + c as int % 16 == c as int);
    }
}

proof fn body_reads_back(s: Seq<char>, rest: Seq<char>)
    ensures
        string_body(escaped_all(s) + (seq!['"'] + rest)) == Some((s, rest)),
    decreases s.len(),
{
    let b = escaped_all(s) + (seq!['"'] + rest);
    if s.len() == 0 {
        assert(b.drop_first() =~= rest);
        assert(s =~= seq![]);
    } else {
        let tail = escaped_all(s.drop_first()) + (seq!['"'] + rest);
        assert(b =~= escaped(s[0]) + tail);
        escape_reads_back(s[0], tail);
        assert(b.skip(escaped(s[0]).len() as int) =~= tail);
        body_reads_back(s.drop_first(), rest);
        assert(seq![s[0]] + s.drop_first() =~= s);
    }
}

/// A string of the canonical form holds the text that it was written for,
/// whatever follows it.
pub proof fn string_reads_back(s: Seq<char>, rest: Seq<char>)
    ensures
        string_value(json_string(s) + rest) == Some((s, rest)),
{
    let b = json_string(s) + rest;
    assert(b.drop_first() =~= escaped_all(s) + (seq!['"'] + rest));
    body_reads_back(s, rest);
}

/// The text that a string holds, and what follows the string, can be told from
/// the characters.
pub proof fn strings_prefix_free(s: Seq<char>, x: Seq<char>, t: Seq<char>, y: Seq<char>)
    requires
        json_string(s) + x == json_string(t) + y,
    ensures
        s == t,
        x == y,
{
    let l = json_string(s) + x;
    let r = json_string(t) + y;
    assert(l.skip(1) =~= escaped_all(s) + (seq!['"'] + x));
    assert(r.skip(1) =~= escaped_all(t) + (seq!['"'] + y));
    bodies_prefix_free(s, x, t, y);
}

proof fn bodies_prefix_free(s: Seq<char>, x: Seq<char>, t: Seq<char>, y: Seq<char>)
    requires
        escaped_all(s) + (seq!['"'] + x) == escaped_all(t) + (seq!['"'] + y),
    ensures
        s == t,
        x == y,
    decreases s.len(),
{
    let l = escaped_all(s) + (seq!['"'] + x);
    let r = escaped_all(t) + (seq!['"'] + y);
    if s.len() == 0 && t.len() == 0 {
        assert(s =~= t);
        assert(l.skip(1) =~= x);
        assert(r.skip(1) =~= y);
    } else if s.len() == 0 {
        escapes_start(t[0]);
        assert(l[0] == '"');
        assert(r[0] == escaped(t[0])[0]);
    } else if t.len() == 0 {
        escapes_start(s[0]);
        assert(r[0] == '"');
        assert(l[0] == escaped(s[0])[0]);
    } else {
        let x1 = escaped_all(s.drop_first()) + (seq!['"'] + x);
        let y1 = escaped_all(t.drop_first()) + (seq!['"'] + y);
        assert(l =~= escaped(s[0]) + x1);
        assert(r =~= escaped(t[0]) + y1);
        escapes_prefix_free(s[0], x1, t[0], y1);
        bodies_prefix_free(s.drop_first(), x, t.drop_first(), y);
        assert(s =~= seq![s[0]] + s.drop_first());
        assert(t =~= seq![t[0]] + t.drop_first());
    }
}

// ---------------------------------------------------------------------------
// The canonical form
// ---------------------------------------------------------------------------

/// A member that holds a text, and what follows.
pub open spec fn text_member(key: Seq<char>, value: Seq<char>, rest: Seq<char>) -> Seq<char> {
    key + json_string(value) + rest
}

/// A member that holds a truth value, and what follows.
pub open spec fn flag_member(key: Seq<char>, value: bool, rest: Seq<char>) -> Seq<char> {
    key + (if value {
        "true"@
    } else {
        "false"@
    }) + rest
}

/// How the canonical form ends: with what the commitment supersedes, if anything.
pub open spec fn superseded_part(supersedes: Option<CommitmentRefView>) -> Seq<char> {
    match supersedes {
        None => "}"@,
        Some(s) => text_member(
            ",\"supersedes\":{\"commitment_hash\":"@,
            s.commitment_hash,
            text_member(",\"session_id\":"@, s.session_id, "}}"@),
        ),
    }
}

/// The second half of the canonical form.
pub open spec fn later_part(p: CommitmentPayloadView) -> Seq<char> {
    flag_member(
        ",\"outcome_positive\":"@,
        p.outcome_positive,
        text_member(
            ",\"policy_version\":"@,
            p.policy_version,
            text_member(",\"reason\":"@, p.reason, superseded_part(p.supersedes)),
        ),
    )
}

/// The canonical form of a commitment: a JSON object with its members in the
/// order of their names.
pub open spec fn canonical(p: CommitmentPayloadView) -> Seq<char> {
    text_member(
        "{\"action\":"@,
        p.action,
        text_member(
            ",\"authority_scope\":"@,
            p.authority_scope,
            text_member(
                ",\"commitment_id\":"@,
                p.commitment_id,
                text_member(
                    ",\"configuration_version\":"@,
                    p.configuration_version,
                    text_member(",\"mode_version\":"@, p.mode_version, later_part(p)),
                ),
            ),
        ),
    )
}

fn push_text_member(out: &mut String, key: &str, value: &str)
    ensures
        forall|rest: Seq<char>|
            #[trigger] (final(out)@ + rest) == old(out)@ + text_member(key@, value@, rest),
{
    let ghost before = out@;
    out.append(key);
    push_json_string(out, value);
    assert forall|rest: Seq<char>|
        #[trigger] (out@ + rest) == before + text_member(key@, value@, rest) by {
        assert(out@ + rest =~= before + text_member(key@, value@, rest));
    }
}

fn push_flag_member(out: &mut String, key: &str, value: bool)
    ensures
        forall|rest: Seq<char>|
            #[trigger] (final(out)@ + rest) == old(out)@ + flag_member(key@, value, rest),
{
    let ghost before = out@;
    out.append(key);
    out.append(
        if value {
            "true"
        } else {
            "false"
        },
    );
    assert forall|rest: Seq<char>|
        #[trigger] (out@ + rest) == before + flag_member(key@, value, rest) by {
        assert(out@ + rest =~= before + flag_member(key@, value, rest));
    }
}

fn push_superseded_part(out: &mut String, payload: &CommitmentPayload)
    ensures
        final(out)@ == old(out)@ + superseded_part(payload.deep_view().supersedes),
{
    match &payload.supersedes {
        None => {
            out.append("}");
        },
        Some(supersedes) => {
            push_text_member(
                out,
                ",\"supersedes\":{\"commitment_hash\":",
                supersedes.commitment_hash.as_str(),
            );
            push_text_member(out, ",\"session_id\":", supersedes.session_id.as_str());
            out.append("}}");
        },
    }
}

/// The canonical form of a commitment, in UTF-8.
pub fn canonicalize(payload: &CommitmentPayload) -> (r: Vec<u8>)
    ensures
        r@ == encode_utf8(canonical(payload.deep_view())),
{
    let mut out: String = String::new();
    push_text_member(&mut out, "{\"action\":", payload.action.as_str());
    push_text_member(&mut out, ",\"authority_scope\":", payload.authority_scope.as_str());
    push_text_member(&mut out, ",\"commitment_id\":", payload.commitment_id.as_str());
    push_text_member(
        &mut out,
        ",\"configuration_version\":",
        payload.configuration_version.as_str(),
    );
    push_text_member(&mut out, ",\"mode_version\":", payload.mode_version.as_str());
    push_flag_member(&mut out, ",\"outcome_positive\":", payload.outcome_positive);
    push_text_member(&mut out, ",\"policy_version\":", payload.policy_version.as_str());
    push_text_member(&mut out, ",\"reason\":", payload.reason.as_str());
    push_superseded_part(&mut out, payload);
    assert(Seq::<char>::empty() + canonical(payload.deep_view()) =~= canonical(
        payload.deep_view(),
    ));
    assert(out@ == canonical(payload.deep_view()));
    out.as_str().as_bytes_vec()
}

// ---------------------------------------------------------------------------
// The hash
// ---------------------------------------------------------------------------

/// The SHA-256 digest of the bytes.
pub uninterp spec fn sha256(bytes: Seq<u8>) -> Seq<u8>;

/// `sha2::Sha256::digest`: the SHA-256 digest of the bytes. It is 32 bytes long
/// and depends on the bytes alone.
#[verifier::external_body]
fn digest(bytes: &[u8]) -> (r: Vec<u8>)
    ensures
        r@ == sha256(bytes@),
        r@.len() == 32,
{
    sha2::Sha256::digest(bytes).to_vec()
}

/// What is hashed: the label, a colon and the canonical form.
pub open spec fn preimage(p: CommitmentPayloadView) -> Seq<u8> {
    encode_utf8("macp-commitment-hash/1"@) + seq![0x3a] + encode_utf8(canonical(p))
}

/// How a digest is written.
pub open spec fn written(digest: Seq<u8>) -> Seq<char> {
    "sha256:"@ + hex(digest)
}

/// Writes a digest.
pub fn write_digest(digest: &[u8]) -> (r: String)
    ensures
        r@ == written(digest@),
{
    let mut out: String = "sha256:".to_owned();
    let mut i: usize = 0;
    assert(out@ =~= "sha256:"@ + hex(digest@.take(0)));
    while i < digest.len()
        invariant
            i <= digest@.len(),
            out@ == "sha256:"@ + hex(digest@.take(i as int)),
        decreases digest@.len() - i,
    {
        let byte: u8 = digest[i];
        out.push(to_hex_digit(byte / 16));
        out.push(to_hex_digit(byte % 16));
        proof {
            assert(hex(digest@.take(i + 1)) =~= hex(digest@.take(i as int)) + hex_byte(byte));
        }
        i = i + 1;
        assert(out@ =~= "sha256:"@ + hex(digest@.take(i as int)));
    }
    assert(digest@.take(i as int) =~= digest@);
    out
}

/// The hash of a commitment: `sha256:` and 64 hexadecimal digits. Every
/// commitment has one, be it complete or not.
pub fn commitment_hash(payload: &CommitmentPayload) -> (r: String)
    ensures
        r@ == written(sha256(preimage(payload.deep_view()))),
        r@.len() == "sha256:"@.len() + 64,
{
    let mut bytes: Vec<u8> = LABEL.as_bytes_vec();
    bytes.push(0x3a);
    let mut form: Vec<u8> = canonicalize(payload);
    bytes.append(&mut form);
    assert(bytes@ =~= preimage(payload.deep_view()));
    write_digest(digest(bytes.as_slice()).as_slice())
}

// ---------------------------------------------------------------------------
// What always holds
// ---------------------------------------------------------------------------

proof fn members_prefix_free(
    key: Seq<char>,
    s: Seq<char>,
    x: Seq<char>,
    t: Seq<char>,
    y: Seq<char>,
)
    requires
        text_member(key, s, x) == text_member(key, t, y),
    ensures
        s == t,
        x == y,
{
    let n = key.len() as int;
    assert(text_member(key, s, x).skip(n) =~= json_string(s) + x);
    assert(text_member(key, t, y).skip(n) =~= json_string(t) + y);
    strings_prefix_free(s, x, t, y);
}

proof fn flags_prefix_free(key: Seq<char>, a: bool, x: Seq<char>, b: bool, y: Seq<char>)
    requires
        flag_member(key, a, x) == flag_member(key, b, y),
    ensures
        a == b,
        x == y,
{
    reveal_strlit("true");
    reveal_strlit("false");
    let n = key.len() as int;
    let l = flag_member(key, a, x);
    let r = flag_member(key, b, y);
    assert(l[n] == if a {
        't'
    } else {
        'f'
    });
    assert(r[n] == if b {
        't'
    } else {
        'f'
    });
    let m = if a {
        n + 4
    } else {
        n + 5
    };
    assert(l.skip(m) =~= x);
    assert(r.skip(m) =~= y);
}

proof fn superseded_parts_distinct(a: Option<CommitmentRefView>, b: Option<CommitmentRefView>)
    requires
        superseded_part(a) == superseded_part(b),
    ensures
        a == b,
{
    let key = ",\"supersedes\":{\"commitment_hash\":";
    reveal_strlit("}");
    reveal_strlit(",\"supersedes\":{\"commitment_hash\":");
    match (a, b) {
        (Some(s), Some(t)) => {
            members_prefix_free(
                key@,
                s.commitment_hash,
                text_member(",\"session_id\":"@, s.session_id, "}}"@),
                t.commitment_hash,
                text_member(",\"session_id\":"@, t.session_id, "}}"@),
            );
            members_prefix_free(",\"session_id\":"@, s.session_id, "}}"@, t.session_id, "}}"@);
        },
        (None, Some(t)) => {
            assert(superseded_part(a)[0] == '}');
            assert(superseded_part(b)[0] == ',');
        },
        (Some(s), None) => {
            assert(superseded_part(a)[0] == ',');
            assert(superseded_part(b)[0] == '}');
        },
        _ => {},
    }
}

/// Two commitments have the same canonical form only where they agree in every
/// field. In particular it tells a commitment that supersedes nothing from one
/// that supersedes an empty reference.
pub proof fn canonical_form_distinguishes(a: CommitmentPayloadView, b: CommitmentPayloadView)
    requires
        canonical(a) == canonical(b),
    ensures
        a == b,
{
    let a5 = text_member(",\"mode_version\":"@, a.mode_version, later_part(a));
    let b5 = text_member(",\"mode_version\":"@, b.mode_version, later_part(b));
    let a4 = text_member(",\"configuration_version\":"@, a.configuration_version, a5);
    let b4 = text_member(",\"configuration_version\":"@, b.configuration_version, b5);
    let a3 = text_member(",\"commitment_id\":"@, a.commitment_id, a4);
    let b3 = text_member(",\"commitment_id\":"@, b.commitment_id, b4);
    let a2 = text_member(",\"authority_scope\":"@, a.authority_scope, a3);
    let b2 = text_member(",\"authority_scope\":"@, b.authority_scope, b3);
    members_prefix_free("{\"action\":"@, a.action, a2, b.action, b2);
    members_prefix_free(",\"authority_scope\":"@, a.authority_scope, a3, b.authority_scope, b3);
    members_prefix_free(",\"commitment_id\":"@, a.commitment_id, a4, b.commitment_id, b4);
    members_prefix_free(
        ",\"configuration_version\":"@,
        a.configuration_version,
        a5,
        b.configuration_version,
        b5,
    );
    members_prefix_free(
        ",\"mode_version\":"@,
        a.mode_version,
        later_part(a),
        b.mode_version,
        later_part(b),
    );
    let a7 = text_member(",\"reason\":"@, a.reason, superseded_part(a.supersedes));
    let b7 = text_member(",\"reason\":"@, b.reason, superseded_part(b.supersedes));
    let a6 = text_member(",\"policy_version\":"@, a.policy_version, a7);
    let b6 = text_member(",\"policy_version\":"@, b.policy_version, b7);
    flags_prefix_free(
        ",\"outcome_positive\":"@,
        a.outcome_positive,
        a6,
        b.outcome_positive,
        b6,
    );
    members_prefix_free(",\"policy_version\":"@, a.policy_version, a7, b.policy_version, b7);
    members_prefix_free(
        ",\"reason\":"@,
        a.reason,
        superseded_part(a.supersedes),
        b.reason,
        superseded_part(b.supersedes),
    );
    superseded_parts_distinct(a.supersedes, b.supersedes);
}

/// What is hashed differs for any two commitments that differ.
pub proof fn preimage_distinguishes(a: CommitmentPayloadView, b: CommitmentPayloadView)
    requires
        preimage(a) == preimage(b),
    ensures
        a == b,
{
    let n = encode_utf8("macp-commitment-hash/1"@).len() as int + 1;
    assert(preimage(a).skip(n) =~= encode_utf8(canonical(a)));
    assert(preimage(b).skip(n) =~= encode_utf8(canonical(b)));
    utf8_injective(canonical(a), canonical(b));
    canonical_form_distinguishes(a, b);
}

/// The hashes of two commitments are the same exactly where their digests are.
pub proof fn hash_is_the_digest(a: CommitmentPayloadView, b: CommitmentPayloadView)
    ensures
        written(sha256(preimage(a))) == written(sha256(preimage(b))) <==> sha256(preimage(a))
            == sha256(preimage(b)),
{
    let x = sha256(preimage(a));
    let y = sha256(preimage(b));
    if written(x) == written(y) {
        let n = "sha256:"@.len() as int;
        assert(written(x).skip(n) =~= hex(x));
        assert(written(y).skip(n) =~= hex(y));
        hex_distinct(x, y);
    }
}

/// Every character but the quote, the backslash and the control characters below
/// U+0020 is written as itself, whatever it is.
pub proof fn plain_characters_stand_for_themselves(c: char)
    requires
        c != '"',
        c != '\\',
        c as u32 >= 0x20,
    ensures
        escaped(c) == seq![c],
{
}

proof fn plain_text_is_kept(s: Seq<char>)
    requires
        forall|i: int|
            0 <= i < s.len() ==> #[trigger] s[i] != '"' && s[i] != '\\' && s[i] as u32 >= 0x20,
    ensures
        escaped_all(s) == s,
    decreases s.len(),
{
    if s.len() > 0 {
        let rest = s.drop_first();
        assert forall|i: int| 0 <= i < rest.len() implies #[trigger] rest[i] != '"' && rest[i]
            != '\\' && rest[i] as u32 >= 0x20 by {
            assert(s[i + 1] != '"');
        }
        plain_text_is_kept(rest);
        assert(s[0] != '"');
        plain_characters_stand_for_themselves(s[0]);
        assert(seq![s[0]] + rest =~= s);
    }
}

/// The string of a text without quotes, backslashes and control characters is a
/// quote, the text as it is, and a quote.
pub proof fn plain_text_is_written_as_it_is(s: Seq<char>)
    requires
        forall|i: int|
            0 <= i < s.len() ==> #[trigger] s[i] != '"' && s[i] != '\\' && s[i] as u32 >= 0x20,
    ensures
        json_string(s) == seq!['"'] + s + seq!['"'],
{
    plain_text_is_kept(s);
}

/// Every character is written in the shortest way in which a string can hold it,
/// and where that takes hexadecimal digits, in lower case.
pub proof fn escapes_are_the_shortest(c: char, other: Seq<char>)
    requires
        unescaped(other) == Some((c, other.len())),
        other[0] != '"',
        other[0] as u32 >= 0x20,
    ensures
        escaped(c).len() <= other.len(),
        escaped(c).len() == other.len() && other.len() == 2 ==> escaped(c) == other,
        escaped(c).len() == 6 ==> forall|i: int|
            0 <= i < 6 ==> !('A' <= #[trigger] escaped(c)[i] <= 'F'),
{
    reveal_strlit("0123456789abcdef");
    if escaped(c).len() == 2 && other.len() == 2 {
        assert(escaped(c) =~= other);
    }
    if escaped(c).len() == 6 {
        let high = c as int / 16;
        let low = c as int % 16;
        assert(0 <= high < 16);
        assert(escaped(c)[4] == hex_digit(high));
        assert(escaped(c)[5] == hex_digit(low));
    }
}

/// A text is written one character after the other, each without regard to those
/// around it.
pub proof fn texts_are_written_in_order(a: Seq<char>, b: Seq<char>)
    ensures
        escaped_all(a + b) == escaped_all(a) + escaped_all(b),
    decreases a.len(),
{
    if a.len() == 0 {
        assert(a + b =~= b);
        assert(escaped_all(a) + escaped_all(b) =~= escaped_all(b));
    } else {
        assert((a + b).drop_first() =~= a.drop_first() + b);
        texts_are_written_in_order(a.drop_first(), b);
        assert(escaped_all(a + b) =~= escaped_all(a) + escaped_all(b));
    }
}

/// The members of an object, each a name and what is written for its value, with a
/// colon between the two and a comma between one and the next.
pub open spec fn written_members(members: Seq<(Seq<char>, Seq<char>)>) -> Seq<char>
    decreases members.len(),
{
    if members.len() == 0 {
        seq![]
    } else {
        written_members(members.drop_last()) + (if members.len() == 1 {
            seq![]
        } else {
            seq![',']
        }) + (seq!['"'] + members.last().0 + seq!['"', ':']) + members.last().1
    }
}

/// An object with the members.
pub open spec fn written_object(members: Seq<(Seq<char>, Seq<char>)>) -> Seq<char> {
    seq!['{'] + written_members(members) + seq!['}']
}

/// A name and a value behind other members.
pub open spec fn one_more(
    members: Seq<(Seq<char>, Seq<char>)>,
    name: Seq<char>,
    value: Seq<char>,
) -> Seq<char> {
    written_members(members) + seq![','] + (seq!['"'] + name + seq!['"', ':']) + value
}

proof fn members_with_one_more(
    members: Seq<(Seq<char>, Seq<char>)>,
    name: Seq<char>,
    value: Seq<char>,
)
    requires
        members.len() > 0,
    ensures
        written_members(members.push((name, value))) == one_more(members, name, value),
{
    assert(members.push((name, value)).drop_last() =~= members);
}

/// The members of a commitment without what it supersedes.
pub open spec fn own_members(p: CommitmentPayloadView) -> Seq<(Seq<char>, Seq<char>)> {
    seq![
        ("action"@, json_string(p.action)),
        ("authority_scope"@, json_string(p.authority_scope)),
        ("commitment_id"@, json_string(p.commitment_id)),
        ("configuration_version"@, json_string(p.configuration_version)),
        ("mode_version"@, json_string(p.mode_version)),
        (
            "outcome_positive"@,
            if p.outcome_positive {
                seq!['t', 'r', 'u', 'e']
            } else {
                seq!['f', 'a', 'l', 's', 'e']
            },
        ),
        ("policy_version"@, json_string(p.policy_version)),
        ("reason"@, json_string(p.reason)),
    ]
}

/// The members of what a commitment supersedes.
pub open spec fn reference_members(r: CommitmentRefView) -> Seq<(Seq<char>, Seq<char>)> {
    seq![
        ("commitment_hash"@, json_string(r.commitment_hash)),
        ("session_id"@, json_string(r.session_id)),
    ]
}

proof fn key_of_action()
    ensures
        "{\"action\":"@ == seq!['{'] + (seq!['"'] + "action"@ + seq!['"', ':']),
{
    reveal_strlit("{\"action\":");
    reveal_strlit("action");
    assert("{\"action\":"@ =~= seq!['{'] + (seq!['"'] + "action"@ + seq!['"', ':']));
}

proof fn key_of_authority_scope()
    ensures
        ",\"authority_scope\":"@ == seq![','] + (seq!['"'] + "authority_scope"@ + seq!['"', ':']),
{
    reveal_strlit(",\"authority_scope\":");
    reveal_strlit("authority_scope");
    assert(",\"authority_scope\":"@ =~= seq![','] + (seq!['"'] + "authority_scope"@ + seq!['"', ':']));
}

proof fn key_of_commitment_id()
    ensures
        ",\"commitment_id\":"@ == seq![','] + (seq!['"'] + "commitment_id"@ + seq!['"', ':']),
{
    reveal_strlit(",\"commitment_id\":");
    reveal_strlit("commitment_id");
    assert(",\"commitment_id\":"@ =~= seq![','] + (seq!['"'] + "commitment_id"@ + seq!['"', ':']));
}

proof fn key_of_configuration_version()
    ensures
        ",\"configuration_version\":"@ == seq![','] + (seq!['"'] + "configuration_version"@ + seq!['"', ':']),
{
    reveal_strlit(",\"configuration_version\":");
    reveal_strlit("configuration_version");
    assert(",\"configuration_version\":"@ =~= seq![','] + (seq!['"'] + "configuration_version"@ + seq!['"', ':']));
}

proof fn key_of_mode_version()
    ensures
        ",\"mode_version\":"@ == seq![','] + (seq!['"'] + "mode_version"@ + seq!['"', ':']),
{
    reveal_strlit(",\"mode_version\":");
    reveal_strlit("mode_version");
    assert(",\"mode_version\":"@ =~= seq![','] + (seq!['"'] + "mode_version"@ + seq!['"', ':']));
}

proof fn key_of_outcome_positive()
    ensures
        ",\"outcome_positive\":"@ == seq![','] + (seq!['"'] + "outcome_positive"@ + seq!['"', ':']),
{
    reveal_strlit(",\"outcome_positive\":");
    reveal_strlit("outcome_positive");
    assert(",\"outcome_positive\":"@ =~= seq![','] + (seq!['"'] + "outcome_positive"@ + seq!['"', ':']));
}

proof fn key_of_policy_version()
    ensures
        ",\"policy_version\":"@ == seq![','] + (seq!['"'] + "policy_version"@ + seq!['"', ':']),
{
    reveal_strlit(",\"policy_version\":");
    reveal_strlit("policy_version");
    assert(",\"policy_version\":"@ =~= seq![','] + (seq!['"'] + "policy_version"@ + seq!['"', ':']));
}

proof fn key_of_reason()
    ensures
        ",\"reason\":"@ == seq![','] + (seq!['"'] + "reason"@ + seq!['"', ':']),
{
    reveal_strlit(",\"reason\":");
    reveal_strlit("reason");
    assert(",\"reason\":"@ =~= seq![','] + (seq!['"'] + "reason"@ + seq!['"', ':']));
}

proof fn last_member_moves(
    members: Seq<(Seq<char>, Seq<char>)>,
    name: Seq<char>,
    value: Seq<char>,
    key: Seq<char>,
    rest: Seq<char>,
)
    requires
        members.len() > 0,
        key == seq![','] + (seq!['"'] + name + seq!['"', ':']),
    ensures
        written_members(members.push((name, value))) + rest == written_members(members) + (key
            + value + rest),
{
    members_with_one_more(members, name, value);
    assert(one_more(members, name, value) + rest =~= written_members(members) + (key + value
        + rest));
}

/// The members up to a place.
spec fn members_to(p: CommitmentPayloadView, n: int) -> Seq<(Seq<char>, Seq<char>)> {
    own_members(p).take(n)
}

proof fn members_to_next(p: CommitmentPayloadView, n: int)
    requires
        0 <= n < 8,
    ensures
        members_to(p, n + 1) == members_to(p, n).push(own_members(p)[n]),
        members_to(p, n).len() == n,
{
    assert(members_to(p, n + 1) =~= members_to(p, n).push(own_members(p)[n]));
}

proof fn member_moves_to(p: CommitmentPayloadView, n: int, key: Seq<char>, rest: Seq<char>)
    requires
        1 <= n < 8,
        key == seq![','] + (seq!['"'] + own_members(p)[n].0 + seq!['"', ':']),
    ensures
        written_members(members_to(p, n + 1)) + rest == written_members(members_to(p, n)) + (key
            + own_members(p)[n].1 + rest),
{
    members_to_next(p, n);
    last_member_moves(members_to(p, n), own_members(p)[n].0, own_members(p)[n].1, key, rest);
}

proof fn later_members_written(p: CommitmentPayloadView)
    ensures
        written_members(members_to(p, 8)) + superseded_part(p.supersedes) == written_members(
            members_to(p, 5),
        ) + later_part(p),
{
    let t9 = superseded_part(p.supersedes);
    let t8 = text_member(",\"reason\":"@, p.reason, t9);
    let t7 = text_member(",\"policy_version\":"@, p.policy_version, t8);
    assert(written_members(members_to(p, 8)) + t9 == written_members(members_to(p, 7)) + t8) by {
        key_of_reason();
        member_moves_to(p, 7, ",\"reason\":"@, t9);
    }
    assert(written_members(members_to(p, 7)) + t8 == written_members(members_to(p, 6)) + t7) by {
        key_of_policy_version();
        member_moves_to(p, 6, ",\"policy_version\":"@, t8);
    }
    assert(written_members(members_to(p, 6)) + t7 == written_members(members_to(p, 5))
        + later_part(p)) by {
        key_of_outcome_positive();
        member_moves_to(p, 5, ",\"outcome_positive\":"@, t7);
        reveal_strlit("true");
        reveal_strlit("false");
        assert("true"@ =~= seq!['t', 'r', 'u', 'e']);
        assert("false"@ =~= seq!['f', 'a', 'l', 's', 'e']);
    }
}

proof fn earlier_members_written(p: CommitmentPayloadView)
    ensures
        seq!['{'] + (written_members(members_to(p, 5)) + later_part(p)) == canonical(p),
{
    let t6 = later_part(p);
    let t5 = text_member(",\"mode_version\":"@, p.mode_version, t6);
    let t4 = text_member(",\"configuration_version\":"@, p.configuration_version, t5);
    let t3 = text_member(",\"commitment_id\":"@, p.commitment_id, t4);
    let t2 = text_member(",\"authority_scope\":"@, p.authority_scope, t3);
    assert(written_members(members_to(p, 5)) + t6 == written_members(members_to(p, 4)) + t5) by {
        key_of_mode_version();
        member_moves_to(p, 4, ",\"mode_version\":"@, t6);
    }
    assert(written_members(members_to(p, 4)) + t5 == written_members(members_to(p, 3)) + t4) by {
        key_of_configuration_version();
        member_moves_to(p, 3, ",\"configuration_version\":"@, t5);
    }
    assert(written_members(members_to(p, 3)) + t4 == written_members(members_to(p, 2)) + t3) by {
        key_of_commitment_id();
        member_moves_to(p, 2, ",\"commitment_id\":"@, t4);
    }
    assert(written_members(members_to(p, 2)) + t3 == written_members(members_to(p, 1)) + t2) by {
        key_of_authority_scope();
        member_moves_to(p, 1, ",\"authority_scope\":"@, t3);
    }
    assert(seq!['{'] + (written_members(members_to(p, 1)) + t2) == canonical(p)) by {
        key_of_action();
        let m1 = members_to(p, 1);
        let first = seq!['"'] + "action"@ + seq!['"', ':'];
        assert(m1.drop_last() =~= seq![]);
        assert(written_members(m1.drop_last()) =~= seq![]);
        assert(written_members(m1) =~= first + json_string(p.action));
        assert(seq!['{'] + (written_members(m1) + t2) =~= text_member(
            "{\"action\":"@,
            p.action,
            t2,
        ));
    }
}

proof fn own_members_written(p: CommitmentPayloadView)
    ensures
        seq!['{'] + written_members(own_members(p)) + superseded_part(p.supersedes) == canonical(p),
{
    later_members_written(p);
    earlier_members_written(p);
    assert(members_to(p, 8) =~= own_members(p));
    let w = written_members(own_members(p));
    let t9 = superseded_part(p.supersedes);
    assert(seq!['{'] + w + t9 =~= seq!['{'] + (w + t9));
}

proof fn keys_of_the_reference()
    ensures
        ",\"supersedes\":{\"commitment_hash\":"@ == (seq![','] + (seq!['"'] + "supersedes"@ + seq![
            '"',
            ':',
        ])) + seq!['{'] + (seq!['"'] + "commitment_hash"@ + seq!['"', ':']),
        ",\"session_id\":"@ == seq![','] + (seq!['"'] + "session_id"@ + seq!['"', ':']),
        "}}"@ == seq!['}'] + seq!['}'],
        "}"@ == seq!['}'],
{
    reveal_strlit("}");
    reveal_strlit("}}");
    reveal_strlit(",\"supersedes\":{\"commitment_hash\":");
    reveal_strlit(",\"session_id\":");
    reveal_strlit("supersedes");
    reveal_strlit("commitment_hash");
    reveal_strlit("session_id");
    assert(",\"supersedes\":{\"commitment_hash\":"@ =~= (seq![','] + (seq!['"'] + "supersedes"@ + seq![
        '"',
        ':',
    ])) + seq!['{'] + (seq!['"'] + "commitment_hash"@ + seq!['"', ':']));
    assert(",\"session_id\":"@ =~= seq![','] + (seq!['"'] + "session_id"@ + seq!['"', ':']));
    assert("}}"@ =~= seq!['}'] + seq!['}']);
    assert("}"@ =~= seq!['}']);
}

proof fn reference_written(r: CommitmentRefView)
    ensures
        ({
            let session_key = seq![','] + (seq!['"'] + "session_id"@ + seq!['"', ':']);
            written_object(reference_members(r)) == seq!['{'] + ((seq!['"'] + "commitment_hash"@
                + seq!['"', ':']) + json_string(r.commitment_hash) + (session_key + json_string(
                r.session_id,
            ) + seq!['}']))
        }),
{
    let inner = reference_members(r);
    let i1 = inner.take(1);
    let hash_key = seq!['"'] + "commitment_hash"@ + seq!['"', ':'];
    let session_key = seq![','] + (seq!['"'] + "session_id"@ + seq!['"', ':']);
    assert(inner =~= i1.push(inner[1]));
    last_member_moves(i1, inner[1].0, inner[1].1, session_key, seq!['}']);
    assert(i1.drop_last() =~= seq![]);
    assert(written_members(i1.drop_last()) =~= seq![]);
    assert(written_members(i1) =~= hash_key + json_string(r.commitment_hash));
    assert(written_object(inner) =~= seq!['{'] + (written_members(inner) + seq!['}']));
}

proof fn superseded_member_written(r: CommitmentRefView)
    ensures
        ({
            let key = seq![','] + (seq!['"'] + "supersedes"@ + seq!['"', ':']);
            superseded_part(Some(r)) == key + written_object(reference_members(r)) + seq!['}']
        }),
{
    keys_of_the_reference();
    reference_written(r);
    let key = seq![','] + (seq!['"'] + "supersedes"@ + seq!['"', ':']);
    let hash_key = seq!['"'] + "commitment_hash"@ + seq!['"', ':'];
    let hash = json_string(r.commitment_hash);
    let last = text_member(",\"session_id\":"@, r.session_id, "}}"@);
    let session_part = ",\"session_id\":"@ + json_string(r.session_id);
    assert(last =~= session_part + seq!['}'] + seq!['}']);
    assert(key + seq!['{'] + hash_key + hash + last =~= key + (seq!['{'] + (hash_key + hash + (
    session_part + seq!['}']))) + seq!['}']);
}

/// The canonical form is one JSON object without space, with these members and no
/// others, in this order. A commitment that supersedes nothing has no member for
/// it; no other member is ever left out.
pub proof fn canonical_form_is_one_object(p: CommitmentPayloadView)
    ensures
        p.supersedes is None ==> canonical(p) == written_object(own_members(p)),
        p.supersedes matches Some(r) ==> canonical(p) == written_object(
            own_members(p).push(("supersedes"@, written_object(reference_members(r)))),
        ),
{
    own_members_written(p);
    match p.supersedes {
        None => {
            keys_of_the_reference();
        },
        Some(r) => {
            superseded_member_written(r);
            let key = seq![','] + (seq!['"'] + "supersedes"@ + seq!['"', ':']);
            let object = written_object(reference_members(r));
            let all = own_members(p).push(("supersedes"@, object));
            last_member_moves(own_members(p), "supersedes"@, object, key, seq!['}']);
            let w = written_members(own_members(p));
            let tail = superseded_part(p.supersedes);
            assert(seq!['{'] + written_members(all) + seq!['}'] =~= seq!['{'] + (written_members(
                all,
            ) + seq!['}']));
            assert(seq!['{'] + w + tail =~= seq!['{'] + (w + tail));
        },
    }
}

/// The members stand in the order of their names, character by character.
pub proof fn members_stand_in_order(p: CommitmentPayloadView, r: CommitmentRefView, i: int, j: int)
    requires
        0 <= i < j < 9,
    ensures
        ({
            let names = own_members(p).push(("supersedes"@, json_string(r.session_id)));
            exists|k: int|
                0 <= k < names[i].0.len() && k < names[j].0.len() && #[trigger] names[i].0[k]
                    < names[j].0[k] && names[i].0.take(k) == names[j].0.take(k)
        }),
        ({
            let names = reference_members(r);
            names[0].0[0] < names[1].0[0]
        }),
{
    reveal_strlit("action");
    reveal_strlit("authority_scope");
    reveal_strlit("commitment_id");
    reveal_strlit("configuration_version");
    reveal_strlit("mode_version");
    reveal_strlit("outcome_positive");
    reveal_strlit("policy_version");
    reveal_strlit("reason");
    reveal_strlit("supersedes");
    reveal_strlit("commitment_hash");
    reveal_strlit("session_id");
    let names = own_members(p).push(("supersedes"@, json_string(r.session_id)));
    let k = if i == 0 && j == 1 {
        1int
    } else if i == 2 && j == 3 {
        2
    } else {
        0
    };
    assert(names[i].0.take(k) =~= names[j].0.take(k));
    assert(names[i].0[k] < names[j].0[k]);
}

/// What is hashed is the label, a colon, and nothing else but the canonical form.
pub proof fn the_label_goes_first(p: CommitmentPayloadView)
    ensures
        preimage(p) == encode_utf8("macp-commitment-hash/1"@) + seq![58u8] + encode_utf8(
            canonical(p),
        ),
{
}

/// A digest is written byte by byte, as `sha256:` and two hexadecimal digits in
/// lower case for each, the higher half first.
pub proof fn digests_are_written_in_hexadecimal(digest: Seq<u8>, i: int)
    requires
        0 <= i < digest.len(),
    ensures
        written(digest).len() == 7 + 2 * digest.len(),
        written(digest).take(7) == "sha256:"@,
        hex_value(written(digest)[7 + 2 * i]) == Some(digest[i] as int / 16),
        hex_value(written(digest)[8 + 2 * i]) == Some(digest[i] as int % 16),
        !('A' <= written(digest)[7 + 2 * i] <= 'F'),
        !('A' <= written(digest)[8 + 2 * i] <= 'F'),
{
    reveal_strlit("sha256:");
    reveal_strlit("0123456789abcdef");
    assert("sha256:"@.len() == 7);
    assert(written(digest).take(7) =~= "sha256:"@);
    let h = hex(digest);
    assert(written(digest)[7 + 2 * i] == h[2 * i]);
    assert(written(digest)[8 + 2 * i] == h[2 * i + 1]);
    assert((2 * i) / 2 == i && (2 * i) % 2 == 0);
    assert((2 * i + 1) / 2 == i && (2 * i + 1) % 2 == 1);
    assert(h[2 * i] == hex_digit(digest[i] as int / 16));
    assert(h[2 * i + 1] == hex_digit(digest[i] as int % 16));
}

} // verus!
