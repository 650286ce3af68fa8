//! Text: comparison, trimming, affixes and decimal numbers, each stated over
//! the characters of the text.

use vstd::prelude::*;
use vstd::utf8::{decode_utf8, encode_utf8, valid_utf8};

verus! {

/// The characters with the Unicode property `White_Space`.
pub open spec fn is_white_space(c: char) -> bool {
    let u = c as u32;
    ||| 0x09 <= u <= 0x0d
    ||| u == 0x20
    ||| u == 0x85
    ||| u == 0xa0
    ||| u == 0x1680
    ||| 0x2000 <= u <= 0x200a
    ||| u == 0x2028
    ||| u == 0x2029
    ||| u == 0x202f
    ||| u == 0x205f
    ||| u == 0x3000
}

/// `s` without its leading white space.
pub open spec fn without_leading(s: Seq<char>) -> Seq<char>
    decreases s.len(),
{
    if s.len() > 0 && is_white_space(s[0]) {
        without_leading(s.drop_first())
    } else {
        s
    }
}

/// `s` without its trailing white space.
pub open spec fn without_trailing(s: Seq<char>) -> Seq<char>
    decreases s.len(),
{
    if s.len() > 0 && is_white_space(s.last()) {
        without_trailing(s.drop_last())
    } else {
        s
    }
}

/// `s` without the white space at either end.
pub open spec fn trim(s: Seq<char>) -> Seq<char> {
    without_trailing(without_leading(s))
}

/// Whether nothing but white space is left in `s`.
pub open spec fn is_blank(s: Seq<char>) -> bool {
    trim(s).len() == 0
}

/// `str::trim`: the text without the white space (Unicode `White_Space`) at
/// either end.
#[verifier::external_body]
pub(crate) fn trimmed(s: &str) -> (r: &str)
    ensures
        r@ == trim(s@),
{
    s.trim()
}

/// Whether the text is empty or white space alone.
pub fn blank(s: &str) -> (r: bool)
    ensures
        r == is_blank(s@),
{
    trimmed(s).is_empty()
}

/// Whether `suffix` ends `s`.
pub open spec fn has_suffix(s: Seq<char>, suffix: Seq<char>) -> bool {
    &&& suffix.len() <= s.len()
    &&& s.skip(s.len() - suffix.len()) == suffix
}

/// Whether `prefix` starts `s`.
pub open spec fn has_prefix(s: Seq<char>, prefix: Seq<char>) -> bool {
    &&& prefix.len() <= s.len()
    &&& s.take(prefix.len() as int) == prefix
}

/// The characters of a text.
pub fn characters(s: &str) -> (r: Vec<char>)
    ensures
        r@ == s@,
{
    let mut r: Vec<char> = Vec::new();
    for c in iter: s.chars()
        invariant
            iter.seq() == s@,
            r@ == s@.take(iter.index()),
    {
        let ghost i = iter.index();
        r.push(c);
        assert(r@ =~= s@.take(i + 1));
    }
    assert(s@.take(s@.len() as int) =~= s@);
    r
}

/// Whether the characters from `from` on start with the others.
fn matches_at(all: &Vec<char>, from: usize, part: &Vec<char>) -> (r: bool)
    requires
        from + part@.len() <= all@.len(),
    ensures
        r == (all@.subrange(from as int, from + part@.len()) == part@),
{
    let n: usize = all.len();
    let mut i: usize = 0;
    while i < part.len()
        invariant
            i <= part@.len(),
            from + part@.len() <= all@.len(),
            n == all@.len(),
            forall|j: int| 0 <= j < i ==> all@[from + j] == part@[j],
        decreases part@.len() - i,
    {
        if all[from + i] != part[i] {
            assert(all@.subrange(from as int, from + part@.len())[i as int] != part@[i as int]);
            return false;
        }
        i = i + 1;
    }
    assert(all@.subrange(from as int, from + part@.len()) =~= part@);
    true
}

/// Whether `suffix` ends the text.
pub fn ends_with(s: &str, suffix: &str) -> (r: bool)
    ensures
        r == has_suffix(s@, suffix@),
{
    let all: Vec<char> = characters(s);
    let part: Vec<char> = characters(suffix);
    if part.len() > all.len() {
        return false;
    }
    let from: usize = all.len() - part.len();
    assert(s@.skip(from as int) =~= s@.subrange(from as int, from + part@.len()));
    matches_at(&all, from, &part)
}

/// What follows `prefix` in the text, and `None` where the text does not start
/// with it.
pub fn strip_prefix(s: &str, prefix: &str) -> (r: Option<String>)
    ensures
        r is Some <==> has_prefix(s@, prefix@),
        r is Some ==> r->0@ == s@.skip(prefix@.len() as int),
{
    let all: Vec<char> = characters(s);
    let part: Vec<char> = characters(prefix);
    if part.len() > all.len() {
        return None;
    }
    assert(s@.take(part@.len() as int) =~= s@.subrange(0, part@.len() as int));
    if !matches_at(&all, 0, &part) {
        return None;
    }
    let mut rest: String = String::new();
    let mut i: usize = part.len();
    assert(rest@ =~= s@.subrange(i as int, i as int));
    while i < all.len()
        invariant
            part@.len() <= i <= all@.len(),
            all@ == s@,
            rest@ == s@.subrange(part@.len() as int, i as int),
        decreases all@.len() - i,
    {
        rest.push(all[i]);
        i = i + 1;
        assert(rest@ =~= s@.subrange(part@.len() as int, i as int));
    }
    assert(rest@ =~= s@.skip(part@.len() as int));
    Some(rest)
}

/// Whether `prefix` starts the text.
pub fn starts_with(s: &str, prefix: &str) -> (r: bool)
    ensures
        r == has_prefix(s@, prefix@),
{
    strip_prefix(s, prefix).is_some()
}

/// The text in upper case.
pub uninterp spec fn uppercase(s: Seq<char>) -> Seq<char>;

/// `str::to_uppercase`: the upper case of the text by the Unicode tables, which
/// depends on the text alone.
#[verifier::external_body]
pub(crate) fn to_uppercase(s: &str) -> (r: String)
    ensures
        r@ == uppercase(s@),
{
    s.to_uppercase()
}

/// `std::str::from_utf8`: the text whose UTF-8 form the bytes are, and `None`
/// where they are no valid UTF-8.
#[verifier::external_body]
fn std_from_utf8(bytes: &[u8]) -> (r: Option<&str>)
    ensures
        r is Some <==> valid_utf8(bytes@),
        r is Some ==> r->0@ == decode_utf8(bytes@),
{
    std::str::from_utf8(bytes).ok()
}

/// The text that the bytes hold in UTF-8.
pub fn from_utf8(bytes: &[u8]) -> (r: Option<String>)
    ensures
        r is Some <==> valid_utf8(bytes@),
        r is Some ==> r->0@ == decode_utf8(bytes@),
{
    match std_from_utf8(bytes) {
        Some(text) => Some(text.to_owned()),
        None => None,
    }
}

/// `String::push`: the character is appended to the text.
pub assume_specification[ String::push ](s: &mut String, c: char)
    ensures
        final(s)@ == old(s)@.push(c),
;

/// Whether the digits `s` are all decimal digits.
pub open spec fn all_digits(s: Seq<char>) -> bool {
    forall|i: int| 0 <= i < s.len() ==> '0' <= #[trigger] s[i] <= '9'
}

/// The number that the decimal digits `s` write.
pub open spec fn digits_value(s: Seq<char>) -> nat
    decreases s.len(),
{
    if s.len() == 0 {
        0
    } else {
        digits_value(s.drop_last()) * 10 + (s.last() as u32 - '0' as u32) as nat
    }
}

/// The number a text writes: decimal digits behind an optional plus sign.
pub open spec fn decimal(s: Seq<char>) -> Option<nat> {
    let digits = if s.len() > 0 && s[0] == '+' {
        s.drop_first()
    } else {
        s
    };
    if digits.len() > 0 && all_digits(digits) {
        Some(digits_value(digits))
    } else {
        None
    }
}

/// The number that more digits write is no smaller.
proof fn digits_value_grows(s: Seq<char>, n: int)
    requires
        all_digits(s),
        0 <= n <= s.len(),
    ensures
        digits_value(s.take(n)) <= digits_value(s),
    decreases s.len(),
{
    if n == s.len() {
        assert(s.take(n) =~= s);
    } else {
        let init = s.drop_last();
        assert(init.take(n) =~= s.take(n));
        digits_value_grows(init, n);
        assert('0' <= s[s.len() - 1]);
    }
}

/// Reads the number that the text writes in decimal digits behind an optional plus
/// sign, and `None` where it writes none or one that a `usize` cannot hold.
pub fn parse_usize(s: &str) -> (r: Option<usize>)
    ensures
        r is Some <==> (decimal(s@) is Some && decimal(s@)->0 <= usize::MAX),
        r is Some ==> r->0 == decimal(s@)->0,
{
    match parse_u64(s) {
        Some(n) => {
            if n <= usize::MAX as u64 {
                Some(n as usize)
            } else {
                None
            }
        },
        None => None,
    }
}

/// Reads the number that the text writes in decimal digits behind an optional plus
/// sign, and `None` where it writes none or one that a `u64` cannot hold.
pub fn parse_u64(s: &str) -> (r: Option<u64>)
    ensures
        r is Some <==> (decimal(s@) is Some && decimal(s@)->0 <= u64::MAX),
        r is Some ==> r->0 == decimal(s@)->0,
{
    let all: Vec<char> = characters(s);
    let from: usize = if all.len() > 0 && all[0] == '+' {
        1
    } else {
        0
    };
    let ghost digits = s@.skip(from as int);
    assert(from == 1 ==> digits =~= s@.drop_first());
    assert(from == 0 ==> digits =~= s@);
    if all.len() == from {
        return None;
    }
    let mut value: u64 = 0;
    let mut i: usize = from;
    assert(digits.take(0) =~= seq![]);
    while i < all.len()
        invariant
            from <= i <= all@.len(),
            all@ == s@,
            digits == s@.skip(from as int),
            forall|j: int| 0 <= j < i - from ==> '0' <= #[trigger] digits[j] <= '9',
            value == digits_value(digits.take(i - from)),
            decimal(s@) == if all_digits(digits) {
                Some(digits_value(digits))
            } else {
                None
            },
        decreases all@.len() - i,
    {
        let c: char = all[i];
        assert(digits[i - from] == c);
        assert(digits.take(i - from + 1).drop_last() =~= digits.take(i - from));
        if c < '0' || c > '9' {
            return None;
        }
        let digit: u64 = (c as u32 - '0' as u32) as u64;
        if value > (u64::MAX - digit) / 10 {
            proof {
                assert(digits_value(digits.take(i - from + 1)) == value * 10 + digit);
                assert(value * 10 + digit > u64::MAX) by (nonlinear_arith)
                    requires
                        value > (u64::MAX - digit) / 10,
                        digit <= 9,
                ;
                if all_digits(digits) {
                    digits_value_grows(digits, i - from + 1);
                }
            }
            return None;
        }
        value = value * 10 + digit;
        i = i + 1;
    }
    assert(digits.take(i - from) =~= digits);
    Some(value)
}

/// Two texts with the same UTF-8 bytes are the same text.
pub proof fn utf8_injective(a: Seq<char>, b: Seq<char>)
    requires
        encode_utf8(a) == encode_utf8(b),
    ensures
        a == b,
{
    vstd::utf8::encode_utf8_decode_utf8(a);
    vstd::utf8::encode_utf8_decode_utf8(b);
}

/// Whether the two byte sequences agree before `k`.
pub open spec fn agree_until(a: Seq<u8>, b: Seq<u8>, k: int) -> bool {
    &&& 0 <= k <= a.len()
    &&& k <= b.len()
    &&& forall|i: int| 0 <= i < k ==> a[i] == b[i]
}

/// Whether `a` stands before `b` in the lexicographic order of bytes, with `k`
/// the first place where they part.
pub open spec fn parts_at(a: Seq<u8>, b: Seq<u8>, k: int) -> bool {
    &&& agree_until(a, b, k)
    &&& k < b.len()
    &&& (k == a.len() || a[k] < b[k])
}

/// The lexicographic order of byte sequences.
pub open spec fn bytes_before(a: Seq<u8>, b: Seq<u8>) -> bool {
    exists|k: int| parts_at(a, b, k)
}

/// The order of texts: that of their UTF-8 bytes.
pub open spec fn text_before(a: Seq<char>, b: Seq<char>) -> bool {
    bytes_before(encode_utf8(a), encode_utf8(b))
}

proof fn bytes_before_irreflexive(a: Seq<u8>)
    ensures
        !bytes_before(a, a),
{
}

proof fn bytes_before_asymmetric(a: Seq<u8>, b: Seq<u8>)
    requires
        bytes_before(a, b),
    ensures
        !bytes_before(b, a),
{
    let k = choose|k: int| parts_at(a, b, k);
    if bytes_before(b, a) {
        let j = choose|j: int| parts_at(b, a, j);
        if j < k {
            assert(a[j] == b[j]);
        } else if k < j {
            assert(b[k] == a[k]);
        }
    }
}

proof fn bytes_before_transitive(a: Seq<u8>, b: Seq<u8>, c: Seq<u8>)
    requires
        bytes_before(a, b),
        bytes_before(b, c),
    ensures
        bytes_before(a, c),
{
    let k = choose|k: int| parts_at(a, b, k);
    let j = choose|j: int| parts_at(b, c, j);
    let m = if k <= j {
        k
    } else {
        j
    };
    assert(parts_at(a, c, m));
}

/// No text stands before itself.
pub proof fn text_before_irreflexive(a: Seq<char>)
    ensures
        !text_before(a, a),
{
    bytes_before_irreflexive(encode_utf8(a));
}

/// Of two texts at most one stands before the other.
pub proof fn text_before_asymmetric(a: Seq<char>, b: Seq<char>)
    requires
        text_before(a, b),
    ensures
        !text_before(b, a),
        a != b,
{
    bytes_before_asymmetric(encode_utf8(a), encode_utf8(b));
    bytes_before_irreflexive(encode_utf8(a));
}

/// What stands before a text stands before all that the text stands before.
pub proof fn text_before_transitive(a: Seq<char>, b: Seq<char>, c: Seq<char>)
    requires
        text_before(a, b),
        text_before(b, c),
    ensures
        text_before(a, c),
{
    bytes_before_transitive(encode_utf8(a), encode_utf8(b), encode_utf8(c));
}

/// Where one text stands next to another in the order of texts.
#[derive(Clone, Copy, Debug, PartialEq, Eq, Structural)]
pub enum Place {
    Before,
    Same,
    Behind,
}

/// Where `a` stands next to `b`.
pub fn place(a: &str, b: &str) -> (r: Place)
    ensures
        match r {
            Place::Before => text_before(a@, b@),
            Place::Same => a@ == b@,
            Place::Behind => text_before(b@, a@),
        },
{
    let x: &[u8] = a.as_bytes();
    let y: &[u8] = b.as_bytes();
    let mut i: usize = 0;
    while i < x.len() && i < y.len()
        invariant
            x@ == encode_utf8(a@),
            y@ == encode_utf8(b@),
            agree_until(x@, y@, i as int),
        decreases x.len() - i,
    {
        if x[i] < y[i] {
            assert(parts_at(x@, y@, i as int));
            return Place::Before;
        }
        if x[i] > y[i] {
            assert(parts_at(y@, x@, i as int));
            return Place::Behind;
        }
        i = i + 1;
    }
    if i < y.len() {
        assert(parts_at(x@, y@, i as int));
        Place::Before
    } else if i < x.len() {
        assert(parts_at(y@, x@, i as int));
        Place::Behind
    } else {
        assert(x@ =~= y@);
        proof {
            utf8_injective(a@, b@);
        }
        Place::Same
    }
}

/// Whether the two texts are the same.
pub fn same(a: &str, b: &str) -> (r: bool)
    ensures
        r == (a@ == b@),
{
    match place(a, b) {
        Place::Before => {
            proof {
                text_before_asymmetric(a@, b@);
            }
            false
        },
        Place::Same => true,
        Place::Behind => {
            proof {
                text_before_asymmetric(b@, a@);
            }
            false
        },
    }
}

/// The texts of a list.
pub open spec fn texts(list: Seq<String>) -> Seq<Seq<char>> {
    Seq::new(list.len(), |i: int| list[i]@)
}

/// Whether `text` is one of the list.
pub fn among(list: &[String], text: &str) -> (r: bool)
    ensures
        r == texts(list@).contains(text@),
{
    let mut i: usize = 0;
    while i < list.len()
        invariant
            i <= list.len(),
            forall|j: int| 0 <= j < i ==> list@[j]@ != text@,
        decreases list.len() - i,
    {
        if same(list[i].as_str(), text) {
            assert(texts(list@)[i as int] == text@);
            return true;
        }
        i = i + 1;
    }
    assert(!texts(list@).contains(text@)) by {
        if texts(list@).contains(text@) {
            let j = choose|j: int| 0 <= j < texts(list@).len() && texts(list@)[j] == text@;
            assert(list@[j]@ == text@);
        }
    }
    false
}

/// A copy of the list, text by text.
pub fn copy_texts(list: &[String]) -> (r: Vec<String>)
    ensures
        texts(r@) == texts(list@),
{
    let mut r: Vec<String> = Vec::new();
    let mut i: usize = 0;
    while i < list.len()
        invariant
            i <= list.len(),
            r.len() == i,
            forall|j: int| 0 <= j < i ==> r@[j]@ == list@[j]@,
        decreases list.len() - i,
    {
        r.push(list[i].clone());
        i = i + 1;
    }
    assert(texts(r@) =~= texts(list@));
    r
}

/// Whether the two byte strings are the same.
pub fn same_bytes(a: &[u8], b: &[u8]) -> (r: bool)
    ensures
        r == (a@ == b@),
{
    if a.len() != b.len() {
        return false;
    }
    let mut i: usize = 0;
    while i < a.len()
        invariant
            i <= a.len(),
            a.len() == b.len(),
            forall|j: int| 0 <= j < i ==> a@[j] == b@[j],
        decreases a.len() - i,
    {
        if a[i] != b[i] {
            return false;
        }
        i = i + 1;
    }
    assert(a@ =~= b@);
    true
}

/// A copy of the bytes.
pub fn copy_bytes(bytes: &[u8]) -> (r: Vec<u8>)
    ensures
        r@ == bytes@,
{
    let mut r: Vec<u8> = Vec::new();
    let mut i: usize = 0;
    while i < bytes.len()
        invariant
            i <= bytes.len(),
            r@ == bytes@.take(i as int),
        decreases bytes.len() - i,
    {
        r.push(bytes[i]);
        i = i + 1;
        assert(bytes@.take(i as int).drop_last() =~= bytes@.take(i - 1));
    }
    assert(bytes@.take(i as int) =~= bytes@);
    r
}

/// A digit behind a number makes it ten times as much and the digit.
pub proof fn digits_count_from_the_left(s: Seq<char>, c: char)
    requires
        decimal(s) is Some,
    ensures
        '0' <= c <= '9' ==> decimal(s.push(c)) == Some(
            (10 * decimal(s)->0 + (c as int - '0' as int)) as nat,
        ),
        !('0' <= c <= '9') ==> decimal(s.push(c)) is None,
{
    let t = s.push(c);
    let digits = if s[0] == '+' {
        s.drop_first()
    } else {
        s
    };
    let more = if t[0] == '+' {
        t.drop_first()
    } else {
        t
    };
    assert(more =~= digits.push(c));
    assert(more.drop_last() =~= digits);
    assert(more.last() == c);
    if '0' <= c <= '9' {
        assert(all_digits(more)) by {
            assert forall|i: int| 0 <= i < more.len() implies '0' <= #[trigger] more[i] <= '9' by {
                if i < digits.len() {
                    assert('0' <= digits[i] <= '9');
                }
            }
        }
    } else {
        assert(more[more.len() - 1] == c);
    }
}

/// A single digit writes itself, a plus sign before a number makes no difference, and
/// without digits there is no number.
pub proof fn numbers_begin_with_a_digit(s: Seq<char>, c: char)
    ensures
        '0' <= c <= '9' ==> decimal(seq![c]) == Some((c as int - '0' as int) as nat),
        !('0' <= c <= '9') ==> decimal(seq![c]) is None,
        s.len() > 0 && s[0] != '+' ==> decimal(seq!['+'] + s) == decimal(s),
        s.len() > 0 && s[0] == '+' ==> decimal(seq!['+'] + s) is None,
        decimal(Seq::<char>::empty()) is None,
        s.len() > 1 && !('0' <= s[0] <= '9') && s[0] != '+' ==> decimal(s) is None,
{
    let one = seq![c];
    assert(one.drop_last() =~= seq![]);
    assert(digits_value(one.drop_last()) == 0);
    assert(one[0] == c);
    if c == '+' {
        assert(one.drop_first() =~= seq![]);
    }
    assert((seq!['+'] + s).drop_first() =~= s);
}

/// What is blank has nothing but white space in it, and what is trimmed has none at
/// either end.
pub proof fn trimming_takes_off_white_space(s: Seq<char>)
    ensures
        trim(s).len() > 0 ==> !is_white_space(trim(s)[0]) && !is_white_space(trim(s).last()),
        trim(s).len() <= s.len(),
{
    leading_taken_off(s);
    trailing_taken_off(without_leading(s));
}

proof fn leading_taken_off(s: Seq<char>)
    ensures
        without_leading(s).len() > 0 ==> !is_white_space(without_leading(s)[0]),
        without_leading(s).len() <= s.len(),
    decreases s.len(),
{
    if s.len() > 0 && is_white_space(s[0]) {
        leading_taken_off(s.drop_first());
    }
}

proof fn trailing_taken_off(s: Seq<char>)
    ensures
        without_trailing(s).len() > 0 ==> !is_white_space(without_trailing(s).last()),
        without_trailing(s).len() > 0 ==> without_trailing(s)[0] == s[0],
        without_trailing(s).len() <= s.len(),
    decreases s.len(),
{
    if s.len() > 0 && is_white_space(s.last()) {
        trailing_taken_off(s.drop_last());
    }
}

} // verus!
