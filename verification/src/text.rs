//! Text helpers shared by the other modules: decimal numbers, comparison and
//! slicing of strings, all stated over the characters (or bytes) of a string.

use vstd::prelude::*;
use vstd::std_specs::iter::IteratorSpec;
use vstd::string::StringSliceAdditionalSpecFns;
use crate::error::IntErrorKind;

verus! {

/// The character of one decimal digit.
pub open spec fn digit_char(d: int) -> char {
    if d == 0 {
        '0'
    } else if d == 1 {
        '1'
    } else if d == 2 {
        '2'
    } else if d == 3 {
        '3'
    } else if d == 4 {
        '4'
    } else if d == 5 {
        '5'
    } else if d == 6 {
        '6'
    } else if d == 7 {
        '7'
    } else if d == 8 {
        '8'
    } else {
        '9'
    }
}

/// The decimal digits of a natural number, most significant first, without
/// leading zeros.
pub open spec fn decimal_digits(n: nat) -> Seq<char>
    decreases n,
{
    if n < 10 {
        seq![digit_char(n as int)]
    } else {
        decimal_digits(n / 10).push(digit_char((n % 10) as int))
    }
}

/// The decimal text of an integer: a minus sign for negative numbers, then
/// the digits.
pub open spec fn decimal(n: int) -> Seq<char> {
    if n < 0 {
        seq!['-'] + decimal_digits((-n) as nat)
    } else {
        decimal_digits(n as nat)
    }
}

/// The text of one decimal digit.
fn digit_str(d: u64) -> (s: &'static str)
    requires
        d < 10,
    ensures
        s@ == seq![digit_char(d as int)],
{
    proof {
        reveal_strlit("0");
        reveal_strlit("1");
        reveal_strlit("2");
        reveal_strlit("3");
        reveal_strlit("4");
        reveal_strlit("5");
        reveal_strlit("6");
        reveal_strlit("7");
        reveal_strlit("8");
        reveal_strlit("9");
    }
    let s = if d == 0 {
        "0"
    } else if d == 1 {
        "1"
    } else if d == 2 {
        "2"
    } else if d == 3 {
        "3"
    } else if d == 4 {
        "4"
    } else if d == 5 {
        "5"
    } else if d == 6 {
        "6"
    } else if d == 7 {
        "7"
    } else if d == 8 {
        "8"
    } else {
        "9"
    };
    assert(s@ =~= seq![digit_char(d as int)]);
    s
}

/// Writes a natural number in decimal.
pub fn u64_to_string(n: u64) -> (s: String)
    ensures
        s@ == decimal_digits(n as nat),
    decreases n,
{
    if n < 10 {
        String::from_str(digit_str(n))
    } else {
        let mut s = u64_to_string(n / 10);
        s.append(digit_str(n % 10));
        assert(s@ =~= decimal_digits(n as nat));
        s
    }
}

/// Writes a signed number in decimal.
pub fn i64_to_string(n: i64) -> (s: String)
    ensures
        s@ == decimal(n as int),
{
    if n < 0 {
        proof {
            reveal_strlit("-");
        }
        let magnitude: u64 = if n == i64::MIN {
            9223372036854775808u64
        } else {
            (-n) as u64
        };
        let digits = u64_to_string(magnitude);
        let mut s = String::from_str("-");
        s.append(digits.as_str());
        assert(s@ =~= decimal(n as int));
        s
    } else {
        u64_to_string(n as u64)
    }
}

/// The characters of each of the given strings.
pub open spec fn texts_of(strings: Seq<String>) -> Seq<Seq<char>> {
    Seq::new(strings.len(), |i: int| strings[i]@)
}

/// Two texts, one behind the other.
pub fn concat(a: &str, b: &str) -> (r: String)
    ensures
        r@ == a@ + b@,
{
    let mut r = String::from_str(a);
    r.append(b);
    r
}

/// Adds a text at the end of a list.
pub(crate) fn push_text(list: &mut Vec<String>, s: String)
    ensures
        final(list).deep_view() == old(list).deep_view().push(s@),
{
    list.push(s);
    assert(list.deep_view() =~= old(list).deep_view().push(s@));
}

/// The characters of a string, as a vector.
pub fn chars_of(s: &str) -> (v: Vec<char>)
    ensures
        v@ == s@,
{
    let mut out: Vec<char> = Vec::new();
    for c in it: s.chars()
        invariant
            out@ == it.seq().take(it.index() as int),
            it.seq() == s@,
    {
        out.push(c);
    }
    out
}

/// Whether a character is a decimal digit.
pub open spec fn is_digit(c: char) -> bool {
    '0' <= c && c <= '9'
}

/// The value of a decimal digit.
pub open spec fn digit_value(c: char) -> int {
    c as int - '0' as int
}

/// The number that a sequence of decimal digits denotes (0 for none).
pub open spec fn digits_value(s: Seq<char>) -> nat
    decreases s.len(),
{
    if s.len() == 0 {
        0
    } else {
        (digits_value(s.drop_last()) * 10 + digit_value(s.last())) as nat
    }
}

/// What is left of an unsigned number's text after one leading plus sign.
pub open spec fn unsigned_digits(s: Seq<char>) -> Seq<char> {
    if s.len() > 0 && s[0] == '+' {
        s.drop_first()
    } else {
        s
    }
}

/// Whether a text is an unsigned decimal number: an optional plus sign, then
/// one digit or more, and nothing else.
pub open spec fn is_unsigned_literal(s: Seq<char>) -> bool {
    let d = unsigned_digits(s);
    d.len() > 0 && forall|i: int| 0 <= i < d.len() ==> is_digit(#[trigger] d[i])
}

/// The number an unsigned decimal text denotes.
pub open spec fn unsigned_value(s: Seq<char>) -> nat {
    digits_value(unsigned_digits(s))
}

proof fn lemma_digits_value_grows(s: Seq<char>, k: int)
    requires
        0 <= k <= s.len(),
        forall|i: int| 0 <= i < s.len() ==> is_digit(#[trigger] s[i]),
    ensures
        digits_value(s.take(k)) <= digits_value(s),
    decreases s.len() - k,
{
    if k == s.len() {
        assert(s.take(k) =~= s);
    } else {
        let t = s.take(k + 1);
        assert(t.drop_last() =~= s.take(k));
        assert(is_digit(s[k]));
        assert(t.last() == s[k]);
        lemma_digits_value_grows(s, k + 1);
    }
}

/// Whether the digits of a text run over `max` before any other character
/// comes: some number of its first characters are all digits and spell a
/// number above `max`.
pub open spec fn overflows(s: Seq<char>, max: u64) -> bool {
    let d = unsigned_digits(s);
    exists|k: int|
        0 < k <= d.len() && (forall|i: int| 0 <= i < k ==> is_digit(#[trigger] d[i]))
            && digits_value(#[trigger] d.take(k)) > max
}

/// Why a text is no unsigned number of at most `max`, if it is none: it is
/// empty, or its digits run over `max`, or it holds something else than
/// digits behind an optional plus sign.
pub open spec fn number_error_of(s: Seq<char>, max: u64) -> Option<IntErrorKind> {
    if is_unsigned_literal(s) && unsigned_value(s) <= max {
        None
    } else if s.len() == 0 {
        Some(IntErrorKind::Empty)
    } else if overflows(s, max) {
        Some(IntErrorKind::PosOverflow)
    } else {
        Some(IntErrorKind::InvalidDigit)
    }
}

/// Reads an unsigned decimal number that is at most `max`.
pub fn parse_unsigned(s: &str, max: u64) -> (r: Result<u64, IntErrorKind>)
    ensures
        r is Ok <==> number_error_of(s@, max) is None,
        r is Ok ==> r->Ok_0 == unsigned_value(s@),
        r is Err ==> number_error_of(s@, max) == Some(r->Err_0),
{
    let v = chars_of(s);
    if v.len() == 0 {
        return Err(IntErrorKind::Empty);
    }
    let start: usize = if v[0] == '+' {
        1
    } else {
        0
    };
    let ghost d = unsigned_digits(s@);
    assert(d =~= v@.subrange(start as int, v@.len() as int));
    if start == v.len() {
        return Err(IntErrorKind::InvalidDigit);
    }
    let mut acc: u64 = 0;
    let mut i: usize = start;
    while i < v.len()
        invariant
            start <= i <= v.len(),
            v@ == s@,
            d == unsigned_digits(s@),
            d =~= v@.subrange(start as int, v@.len() as int),
            forall|k: int| 0 <= k < i - start ==> is_digit(#[trigger] d[k]),
            acc == digits_value(d.take(i - start)),
            acc <= max,
        decreases v.len() - i,
    {
        let c = v[i];
        let ghost seen = d.take(i - start);
        assert(c == d[i - start]);
        if !(c >= '0' && c <= '9') {
            assert(!is_digit(d[i - start]));
            assert(!overflows(s@, max)) by {
                assert forall|k: int|
                    0 < k <= d.len() && (forall|j: int| 0 <= j < k ==> is_digit(#[trigger] d[j]))
                    implies digits_value(#[trigger] d.take(k)) <= max by {
                    if k > i - start {
                        assert(is_digit(d[i - start]));
                    }
                    assert(seen.take(k) =~= d.take(k));
                    lemma_digits_value_grows(seen, k);
                }
            }
            return Err(IntErrorKind::InvalidDigit);
        }
        let digit: u64 = (c as u64) - ('0' as u64);
        let ghost next = d.take(i - start + 1);
        assert(next.drop_last() =~= seen);
        assert(next.last() == c);
        assert(digits_value(next) == acc * 10 + digit);
        if digit > max || acc > (max - digit) / 10 {
            assert(overflows(s@, max)) by {
                let k = i - start + 1;
                assert forall|j: int| 0 <= j < k implies is_digit(#[trigger] d[j]) by {}
                assert(digits_value(d.take(k)) > max);
            }
            proof {
                if forall|k: int| 0 <= k < d.len() ==> is_digit(#[trigger] d[k]) {
                    lemma_digits_value_grows(d, i - start + 1);
                }
            }
            return Err(IntErrorKind::PosOverflow);
        }
        acc = acc * 10 + digit;
        i += 1;
    }
    assert(d.take(i - start) =~= d);
    Ok(acc)
}

proof fn lemma_same_bytes_same_chars(a: Seq<char>, b: Seq<char>)
    ensures
        (vstd::utf8::encode_utf8(a) == vstd::utf8::encode_utf8(b)) <==> a == b,
{
    vstd::utf8::encode_utf8_decode_utf8(a);
    vstd::utf8::encode_utf8_decode_utf8(b);
}

/// Whether two strings hold the same characters.
pub fn str_equal(a: &str, b: &str) -> (r: bool)
    ensures
        r == (a@ == b@),
{
    proof {
        lemma_same_bytes_same_chars(a@, b@);
    }
    let x = a.as_bytes();
    let y = b.as_bytes();
    if x.len() != y.len() {
        return false;
    }
    let mut i: usize = 0;
    while i < x.len()
        invariant
            x@ == a.spec_bytes(),
            y@ == b.spec_bytes(),
            x@.len() == y@.len(),
            i <= x@.len(),
            forall|k: int| 0 <= k < i ==> x@[k] == y@[k],
        decreases x@.len() - i,
    {
        if x[i] != y[i] {
            return false;
        }
        i += 1;
    }
    assert(x@ =~= y@);
    true
}

/// Byte strings in dictionary order: `a` comes strictly before `b`.
pub open spec fn bytes_before(a: Seq<u8>, b: Seq<u8>) -> bool
    decreases a.len(),
{
    if b.len() == 0 {
        false
    } else if a.len() == 0 {
        true
    } else if a[0] != b[0] {
        a[0] < b[0]
    } else {
        bytes_before(a.drop_first(), b.drop_first())
    }
}

/// Strings in the order of their UTF-8 bytes: `a` comes strictly before `b`.
pub open spec fn text_before(a: Seq<char>, b: Seq<char>) -> bool {
    bytes_before(vstd::utf8::encode_utf8(a), vstd::utf8::encode_utf8(b))
}

proof fn lemma_bytes_before_irreflexive(a: Seq<u8>)
    ensures
        !bytes_before(a, a),
    decreases a.len(),
{
    if a.len() > 0 {
        lemma_bytes_before_irreflexive(a.drop_first());
    }
}

proof fn lemma_bytes_before_transitive(a: Seq<u8>, b: Seq<u8>, c: Seq<u8>)
    requires
        bytes_before(a, b),
        bytes_before(b, c),
    ensures
        bytes_before(a, c),
    decreases a.len(),
{
    if a.len() > 0 && a[0] == b[0] && b[0] == c[0] {
        lemma_bytes_before_transitive(a.drop_first(), b.drop_first(), c.drop_first());
    }
}

proof fn lemma_bytes_before_total(a: Seq<u8>, b: Seq<u8>)
    ensures
        bytes_before(a, b) || bytes_before(b, a) || a == b,
    decreases a.len(),
{
    if a.len() == 0 || b.len() == 0 {
        if a.len() == 0 && b.len() == 0 {
            assert(a =~= b);
        }
    } else if a[0] == b[0] {
        lemma_bytes_before_total(a.drop_first(), b.drop_first());
        if a.drop_first() == b.drop_first() {
            assert(a =~= seq![a[0]] + a.drop_first());
            assert(b =~= seq![b[0]] + b.drop_first());
        }
    }
}

/// The order of texts is a strict total order.
pub proof fn law_text_order_is_strict_and_total(a: Seq<char>, b: Seq<char>, c: Seq<char>)
    ensures
        !text_before(a, a),
        text_before(a, b) && text_before(b, c) ==> text_before(a, c),
        text_before(a, b) || text_before(b, a) || a == b,
{
    let x = vstd::utf8::encode_utf8(a);
    let y = vstd::utf8::encode_utf8(b);
    let z = vstd::utf8::encode_utf8(c);
    lemma_bytes_before_irreflexive(x);
    if text_before(a, b) && text_before(b, c) {
        lemma_bytes_before_transitive(x, y, z);
    }
    lemma_bytes_before_total(x, y);
    lemma_same_bytes_same_chars(a, b);
}

proof fn lemma_bytes_before_from(a: Seq<u8>, b: Seq<u8>, i: int)
    requires
        0 <= i <= a.len(),
        i <= b.len(),
        forall|k: int| 0 <= k < i ==> a[k] == b[k],
    ensures
        bytes_before(a, b) == bytes_before(a.skip(i), b.skip(i)),
    decreases i,
{
    if i == 0 {
        assert(a.skip(0) =~= a);
        assert(b.skip(0) =~= b);
    } else {
        lemma_bytes_before_from(a.drop_first(), b.drop_first(), i - 1);
        assert(a.drop_first().skip(i - 1) =~= a.skip(i));
        assert(b.drop_first().skip(i - 1) =~= b.skip(i));
    }
}

/// Whether `a` comes strictly before `b` in the order of their bytes.
pub fn str_before(a: &str, b: &str) -> (r: bool)
    ensures
        r == text_before(a@, b@),
{
    let x = a.as_bytes();
    let y = b.as_bytes();
    let mut i: usize = 0;
    while i < x.len() && i < y.len()
        invariant
            x@ == a.spec_bytes(),
            y@ == b.spec_bytes(),
            i <= x@.len(),
            i <= y@.len(),
            forall|k: int| 0 <= k < i ==> x@[k] == y@[k],
        decreases x@.len() - i,
    {
        if x[i] != y[i] {
            proof {
                lemma_bytes_before_from(x@, y@, i as int);
            }
            return x[i] < y[i];
        }
        i += 1;
    }
    proof {
        lemma_bytes_before_from(x@, y@, i as int);
    }
    i < y.len()
}

/// The pieces of a text between the occurrences of `sep`. There is always a
/// piece, and there is an empty one wherever two separators meet and where
/// the text begins or ends with one.
pub open spec fn split_on(s: Seq<char>, sep: char) -> Seq<Seq<char>>
    decreases s.len(),
{
    if s.len() == 0 {
        seq![Seq::<char>::empty()]
    } else if s.last() == sep {
        split_on(s.drop_last(), sep).push(Seq::<char>::empty())
    } else {
        let before = split_on(s.drop_last(), sep);
        before.drop_last().push(before.last().push(s.last()))
    }
}

pub(crate) proof fn lemma_split_on_nonempty(s: Seq<char>, sep: char)
    ensures
        split_on(s, sep).len() >= 1,
    decreases s.len(),
{
    if s.len() > 0 {
        lemma_split_on_nonempty(s.drop_last(), sep);
    }
}

/// The characters `from..to` of a string, as a string of their own.
pub(crate) fn slice_string(s: &str, from: usize, to: usize) -> (r: String)
    requires
        from <= to <= s@.len(),
    ensures
        r@ == s@.subrange(from as int, to as int),
{
    String::from_str(s.substring_char(from, to))
}

/// Splits a text at each occurrence of `sep`.
pub fn split(s: &str, sep: char) -> (pieces: Vec<String>)
    ensures
        pieces.deep_view() == split_on(s@, sep),
{
    let v = chars_of(s);
    let mut pieces: Vec<String> = Vec::new();
    let mut start: usize = 0;
    let mut i: usize = 0;
    assert(v@.take(0) =~= Seq::<char>::empty());
    assert(pieces.deep_view().push(v@.subrange(0, 0)) =~= split_on(v@.take(0), sep));
    while i < v.len()
        invariant
            v@ == s@,
            start <= i <= v.len(),
            pieces.deep_view().push(v@.subrange(start as int, i as int)) == split_on(
                v@.take(i as int),
                sep,
            ),
        decreases v.len() - i,
    {
        let ghost before = split_on(v@.take(i as int), sep);
        let ghost next = v@.take(i + 1);
        assert(next.drop_last() =~= v@.take(i as int));
        assert(next.last() == v@[i as int]);
        if v[i] == sep {
            let piece = slice_string(s, start, i);
            let ghost old_pieces = pieces.deep_view();
            pieces.push(piece);
            assert(pieces.deep_view() =~= old_pieces.push(piece@));
            start = i + 1;
            assert(v@.subrange(start as int, i + 1) =~= Seq::<char>::empty());
        } else {
            assert(v@.subrange(start as int, i + 1) =~= v@.subrange(start as int, i as int).push(
                v@[i as int],
            ));
            assert(before.drop_last() =~= pieces.deep_view());
        }
        i += 1;
    }
    assert(v@.take(i as int) =~= v@);
    let piece = slice_string(s, start, i);
    let ghost old_pieces = pieces.deep_view();
    pieces.push(piece);
    assert(pieces.deep_view() =~= old_pieces.push(piece@));
    pieces
}

/// Whether each text of a list comes strictly before all that follow it.
pub open spec fn strictly_ascending(list: Seq<Seq<char>>) -> bool {
    forall|i: int, j: int| 0 <= i < j < list.len() ==> text_before(list[i], list[j])
}

/// Two ascending lists that hold the same texts are the same list: what an
/// ascending list holds decides it.
pub proof fn law_ascending_list_is_decided_by_its_members(a: Seq<Seq<char>>, b: Seq<Seq<char>>)
    requires
        strictly_ascending(a),
        strictly_ascending(b),
        forall|t: Seq<char>| a.contains(t) <==> b.contains(t),
    ensures
        a == b,
    decreases a.len(),
{
    if a.len() == 0 {
        if b.len() > 0 {
            assert(b.contains(b[0]));
        }
        assert(a =~= b);
    } else {
        assert(a.contains(a[0]));
        let j = choose|j: int| 0 <= j < b.len() && b[j] == a[0];
        assert(b.contains(b[0]));
        let i = choose|i: int| 0 <= i < a.len() && a[i] == b[0];
        if j > 0 {
            law_text_order_is_strict_and_total(b[0], a[0], b[0]);
            if i > 0 {
                assert(text_before(a[0], a[i]));
                assert(text_before(b[0], b[j]));
            }
        }
        assert(a[0] == b[0]);
        let x = a.drop_first();
        let y = b.drop_first();
        assert forall|t: Seq<char>| x.contains(t) <==> y.contains(t) by {
            law_text_order_is_strict_and_total(a[0], t, a[0]);
            if x.contains(t) {
                let k = choose|k: int| 0 <= k < x.len() && x[k] == t;
                assert(a[k + 1] == t);
                assert(text_before(a[0], a[k + 1]));
                assert(a.contains(t));
                let m = choose|m: int| 0 <= m < b.len() && b[m] == t;
                assert(m > 0);
                assert(y[m - 1] == t);
            }
            if y.contains(t) {
                let k = choose|k: int| 0 <= k < y.len() && y[k] == t;
                assert(b[k + 1] == t);
                assert(text_before(b[0], b[k + 1]));
                assert(b.contains(t));
                let m = choose|m: int| 0 <= m < a.len() && a[m] == t;
                assert(m > 0);
                assert(x[m - 1] == t);
            }
        }
        assert forall|p: int, q: int| 0 <= p < q < x.len() implies text_before(x[p], x[q]) by {
            assert(text_before(a[p + 1], a[q + 1]));
        }
        assert forall|p: int, q: int| 0 <= p < q < y.len() implies text_before(y[p], y[q]) by {
            assert(text_before(b[p + 1], b[q + 1]));
        }
        law_ascending_list_is_decided_by_its_members(x, y);
        assert(a =~= seq![a[0]] + x);
        assert(b =~= seq![b[0]] + y);
    }
}

/// Puts a text into an ascending list, at its place, unless the list holds
/// it already.
pub(crate) fn insert_unique(list: &mut Vec<String>, s: String)
    requires
        strictly_ascending(old(list).deep_view()),
    ensures
        strictly_ascending(final(list).deep_view()),
        forall|t: Seq<char>|
            final(list).deep_view().contains(t) <==> old(list).deep_view().contains(t) || t == s@,
{
    let ghost before = list.deep_view();
    let mut i: usize = 0;
    while i < list.len() && str_before(list[i].as_str(), s.as_str())
        invariant
            i <= list.len(),
            list.deep_view() == before,
            forall|k: int| 0 <= k < i ==> text_before(#[trigger] before[k], s@),
        decreases list.len() - i,
    {
        assert(before[i as int] == list[i as int]@);
        i += 1;
    }
    if i < list.len() {
        assert(before[i as int] == list[i as int]@);
        if str_equal(list[i].as_str(), s.as_str()) {
            assert forall|t: Seq<char>| before.contains(t) || t == s@ implies before.contains(
                t,
            ) by {
                assert(before[i as int] == s@);
            }
            return ;
        }
    }
    list.insert(i, s);
    let ghost after = list.deep_view();
    assert(after =~= before.insert(i as int, s@));
    assert forall|a: int, b: int| 0 <= a < b < after.len() implies text_before(
        after[a],
        after[b],
    ) by {
        if b == i {
            assert(after[a] == before[a]);
        } else if a == i {
            assert(after[b] == before[b - 1]);
            law_text_order_is_strict_and_total(before[i as int], s@, before[b - 1]);
            law_text_order_is_strict_and_total(s@, before[i as int], before[b - 1]);
            if b - 1 > i {
                assert(text_before(before[i as int], before[b - 1]));
            }
        } else if a < i && b < i {
            assert(after[a] == before[a] && after[b] == before[b]);
        } else if a < i && b > i {
            assert(after[a] == before[a] && after[b] == before[b - 1]);
        } else {
            assert(after[a] == before[a - 1] && after[b] == before[b - 1]);
        }
    }
    assert forall|t: Seq<char>| after.contains(t) <==> before.contains(t) || t == s@ by {
        if after.contains(t) {
            let k = choose|k: int| 0 <= k < after.len() && after[k] == t;
            if k < i {
                assert(before[k] == t);
            } else if k > i {
                assert(before[k - 1] == t);
            }
        }
        if before.contains(t) {
            let k = choose|k: int| 0 <= k < before.len() && before[k] == t;
            if k < i {
                assert(after[k] == t);
            } else {
                assert(after[k + 1] == t);
            }
        }
        if t == s@ {
            assert(after[i as int] == t);
        }
    }
}

/// The texts of a list, each once, in ascending order. The empty text is
/// left out unless `keep_empty` says otherwise.
pub fn sorted_unique(items: &Vec<String>, keep_empty: bool) -> (list: Vec<String>)
    ensures
        strictly_ascending(list.deep_view()),
        forall|t: Seq<char>|
            list.deep_view().contains(t) <==> items.deep_view().contains(t) && (keep_empty
                || t.len() > 0),
{
    let mut list: Vec<String> = Vec::new();
    let mut i: usize = 0;
    while i < items.len()
        invariant
            i <= items.len(),
            strictly_ascending(list.deep_view()),
            forall|t: Seq<char>|
                list.deep_view().contains(t) <==> items.deep_view().take(i as int).contains(t) && (
                keep_empty || t.len() > 0),
        decreases items.len() - i,
    {
        let ghost before = list.deep_view();
        let ghost seen = items.deep_view().take(i as int);
        let ghost next = items.deep_view().take(i + 1);
        assert(next =~= seen.push(items[i as int]@));
        if keep_empty || items[i].as_str().unicode_len() > 0 {
            insert_unique(&mut list, items[i].clone());
        }
        assert forall|t: Seq<char>|
            list.deep_view().contains(t) <==> next.contains(t) && (keep_empty || t.len() > 0) by {
            if next.contains(t) {
                let k = choose|k: int| 0 <= k < next.len() && next[k] == t;
                if k < i {
                    assert(seen[k] == t);
                }
            }
            if seen.contains(t) {
                let k = choose|k: int| 0 <= k < seen.len() && seen[k] == t;
                assert(next[k] == t);
            }
            if t == items[i as int]@ {
                assert(next[i as int] == t);
            }
        }
        i += 1;
    }
    assert(items.deep_view().take(i as int) =~= items.deep_view());
    list
}

} // verus!
