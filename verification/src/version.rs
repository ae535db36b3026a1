//! Dotted version strings and their order.
//!
//! A version is a list of unsigned integers written in decimal and separated
//! by dots. Two versions are compared component by component from the left,
//! the shorter one continued with zeros, so that `1.2` and `1.2.0` are equal.
//! Components may have any number of digits: they are compared as numbers,
//! never through a machine integer.

use crate::text::chars_of;
use vstd::prelude::*;

verus! {

/// A version string has a component that is not an unsigned integer.
#[derive(Debug, Clone, Copy, PartialEq, Eq, Structural)]
pub struct InvalidVersion;

pub open spec fn is_digit(c: char) -> bool {
    '0' <= c <= '9'
}

pub open spec fn digit_value(c: char) -> nat {
    (c as u32 - '0' as u32) as nat
}

pub open spec fn all_digits(s: Seq<char>) -> bool {
    forall|i: int| 0 <= i < s.len() ==> is_digit(#[trigger] s[i])
}

/// An unsigned integer in decimal: one digit or more, and nothing else.
pub open spec fn is_number(s: Seq<char>) -> bool {
    s.len() > 0 && all_digits(s)
}

/// The number that a run of digits writes.
pub open spec fn number_value(s: Seq<char>) -> nat
    decreases s.len(),
{
    if s.len() == 0 {
        0
    } else {
        number_value(s.drop_last()) * 10 + digit_value(s.last())
    }
}

/// The index of the first dot of `s`, or the length of `s` where it has none.
pub open spec fn first_dot(s: Seq<char>) -> int
    decreases s.len(),
{
    if s.len() == 0 || s[0] == '.' {
        0
    } else {
        1 + first_dot(s.skip(1))
    }
}

/// The pieces of `s` between its dots. A string without a dot is one piece,
/// and so is the empty string.
pub open spec fn split_dots(s: Seq<char>) -> Seq<Seq<char>>
    decreases s.len(),
{
    let i = first_dot(s);
    if 0 <= i < s.len() {
        seq![s.take(i)] + split_dots(s.skip(i + 1))
    } else {
        seq![s]
    }
}

pub open spec fn all_numbers(parts: Seq<Seq<char>>) -> bool {
    forall|k: int| 0 <= k < parts.len() ==> is_number(#[trigger] parts[k])
}

/// Every component of `s` is an unsigned integer.
pub open spec fn is_version(s: Seq<char>) -> bool {
    all_numbers(split_dots(s))
}

pub open spec fn numbers_of(parts: Seq<Seq<char>>) -> Seq<nat> {
    Seq::new(parts.len(), |k: int| number_value(parts[k]))
}

/// The components of `s` as numbers.
pub open spec fn version_numbers(s: Seq<char>) -> Seq<nat> {
    numbers_of(split_dots(s))
}

/// Component `i` of a version that is continued with zeros without end.
pub open spec fn component(v: Seq<nat>, i: int) -> nat {
    if 0 <= i < v.len() {
        v[i]
    } else {
        0
    }
}

/// `a` and `b` agree on every component before `k` and differ at `k`.
pub open spec fn first_difference(a: Seq<nat>, b: Seq<nat>, k: int) -> bool {
    &&& 0 <= k
    &&& component(a, k) != component(b, k)
    &&& forall|i: int| 0 <= i < k ==> component(a, i) == component(b, i)
}

/// -1, 0 or 1 as `a` comes before `b`, equals it or comes after it: decided
/// by the first component on which the two differ, 0 where there is none.
pub open spec fn version_order(a: Seq<nat>, b: Seq<nat>) -> int {
    if exists|k: int| first_difference(a, b, k) {
        let k = choose|k: int| first_difference(a, b, k);
        if component(a, k) < component(b, k) {
            -1
        } else {
            1
        }
    } else {
        0
    }
}

/// What `compare_version` returns on two valid versions.
pub open spec fn compare_spec(a: Seq<char>, b: Seq<char>) -> int {
    version_order(version_numbers(a), version_numbers(b))
}

pub open spec fn number_order(x: nat, y: nat) -> int {
    if x < y {
        -1
    } else if x > y {
        1
    } else {
        0
    }
}

/// `s` with zeros in front up to the length `len`.
pub open spec fn padded(s: Seq<char>, len: int) -> Seq<char> {
    Seq::new(
        len as nat,
        |k: int|
            if k < len - s.len() {
                '0'
            } else {
                s[k - (len - s.len())]
            },
    )
}

pub proof fn lemma_first_dot_found(s: Seq<char>, k: int)
    requires
        0 <= k <= s.len(),
        forall|j: int| 0 <= j < k ==> s[j] != '.',
        k < s.len() ==> s[k] == '.',
    ensures
        first_dot(s) == k,
    decreases k,
{
    if k > 0 {
        let t = s.skip(1);
        assert forall|j: int| 0 <= j < k - 1 implies t[j] != '.' by {
            assert(t[j] == s[j + 1]);
        }
        lemma_first_dot_found(t, k - 1);
    }
}

pub proof fn lemma_first_dot_bounds(s: Seq<char>)
    ensures
        0 <= first_dot(s) <= s.len(),
        first_dot(s) < s.len() ==> s[first_dot(s)] == '.',
        forall|j: int| 0 <= j < first_dot(s) ==> s[j] != '.',
    decreases s.len(),
{
    if !(s.len() == 0 || s[0] == '.') {
        let t = s.skip(1);
        lemma_first_dot_bounds(t);
        assert forall|j: int| 0 <= j < first_dot(s) implies s[j] != '.' by {
            if j > 0 {
                assert(s[j] == t[j - 1]);
            }
        }
    }
}

proof fn lemma_zeros_value(s: Seq<char>)
    requires
        forall|i: int| 0 <= i < s.len() ==> s[i] == '0',
    ensures
        number_value(s) == 0,
    decreases s.len(),
{
    if s.len() > 0 {
        lemma_zeros_value(s.drop_last());
    }
}

/// Zeros in front do not change the number.
pub proof fn lemma_padded_value(s: Seq<char>, len: int)
    requires
        s.len() <= len,
    ensures
        number_value(padded(s, len)) == number_value(s),
    decreases s.len(),
{
    let p = padded(s, len);
    if s.len() == 0 {
        lemma_zeros_value(p);
    } else {
        assert(p.drop_last() =~= padded(s.drop_last(), len - 1));
        assert(p.last() == s.last());
        lemma_padded_value(s.drop_last(), len - 1);
    }
}

/// Of two runs of digits of one length, the one with the smaller digit at
/// the first place where they differ writes the smaller number.
pub proof fn lemma_first_digit_decides(p: Seq<char>, q: Seq<char>, k: int)
    requires
        p.len() == q.len(),
        all_digits(p),
        all_digits(q),
        0 <= k < p.len(),
        p.take(k) == q.take(k),
        digit_value(p[k]) < digit_value(q[k]),
    ensures
        number_value(p) < number_value(q),
    decreases p.len(),
{
    let n = p.len() as int;
    let p_front = p.drop_last();
    let q_front = q.drop_last();
    assert(is_digit(p[n - 1]) && is_digit(q[n - 1]));
    if k == n - 1 {
        assert(p_front =~= p.take(k));
        assert(q_front =~= q.take(k));
    } else {
        assert(p_front.take(k) =~= p.take(k));
        assert(q_front.take(k) =~= q.take(k));
        assert(p_front[k] == p[k] && q_front[k] == q[k]);
        assert forall|i: int| 0 <= i < p_front.len() implies is_digit(#[trigger] p_front[i]) by {
            assert(p_front[i] == p[i]);
        }
        assert forall|i: int| 0 <= i < q_front.len() implies is_digit(#[trigger] q_front[i]) by {
            assert(q_front[i] == q[i]);
        }
        lemma_first_digit_decides(p_front, q_front, k);
    }
}

/// Two first differences of the same pair are the same place.
pub proof fn lemma_first_difference_unique(a: Seq<nat>, b: Seq<nat>, j: int, k: int)
    requires
        first_difference(a, b, j),
        first_difference(a, b, k),
    ensures
        j == k,
{
}

/// The order of a pair that first differs at `k` is the order of the two
/// components at `k`.
pub proof fn lemma_order_at_first_difference(a: Seq<nat>, b: Seq<nat>, k: int)
    requires
        first_difference(a, b, k),
    ensures
        version_order(a, b) == number_order(component(a, k), component(b, k)),
{
    let j = choose|j: int| first_difference(a, b, j);
    lemma_first_difference_unique(a, b, j, k);
}

/// The character sequences that a list of character vectors holds.
pub open spec fn pieces(parts: Seq<Vec<char>>) -> Seq<Seq<char>> {
    Seq::new(parts.len(), |k: int| parts[k]@)
}

pub(crate) fn is_digit_char(c: char) -> (b: bool)
    ensures
        b == is_digit(c),
{
    '0' <= c && c <= '9'
}

/// Splits the characters of a version at its dots.
fn split_on_dots(chars: &Vec<char>) -> (parts: Vec<Vec<char>>)
    ensures
        pieces(parts@) == split_dots(chars@),
{
    let mut parts: Vec<Vec<char>> = Vec::new();
    let mut piece: Vec<char> = Vec::new();
    let ghost mut start: int = 0;
    let mut i: usize = 0;
    assert(chars@.skip(0) =~= chars@);
    assert(pieces(parts@) + split_dots(chars@.skip(0)) =~= split_dots(chars@));
    while i < chars.len()
        invariant
            0 <= start <= i <= chars.len(),
            piece@ == chars@.subrange(start, i as int),
            forall|j: int| start <= j < i ==> chars@[j] != '.',
            split_dots(chars@) == pieces(parts@) + split_dots(chars@.skip(start)),
        decreases chars.len() - i,
    {
        let c = chars[i];
        if c == '.' {
            proof {
                let rest = chars@.skip(start);
                lemma_first_dot_found(rest, i - start);
                assert(rest.take(i - start) =~= piece@);
                assert(rest.skip(i - start + 1) =~= chars@.skip(i + 1));
            }
            let ghost before = pieces(parts@);
            let ghost closed = piece@;
            parts.push(piece);
            piece = Vec::new();
            proof {
                assert(pieces(parts@) =~= before + seq![closed]);
                start = i + 1;
                assert(piece@ =~= chars@.subrange(start, i + 1));
            }
        } else {
            piece.push(c);
            assert(piece@ =~= chars@.subrange(start, i + 1));
        }
        i += 1;
    }
    proof {
        let rest = chars@.skip(start);
        lemma_first_dot_found(rest, rest.len() as int);
        assert(rest =~= piece@);
    }
    let ghost before = pieces(parts@);
    let ghost closed = piece@;
    parts.push(piece);
    assert(pieces(parts@) =~= before + seq![closed]);
    parts
}

fn is_number_part(part: &Vec<char>) -> (b: bool)
    ensures
        b == is_number(part@),
{
    if part.len() == 0 {
        return false;
    }
    let mut i: usize = 0;
    while i < part.len()
        invariant
            i <= part.len(),
            forall|j: int| 0 <= j < i ==> is_digit(#[trigger] part@[j]),
        decreases part.len() - i,
    {
        if !is_digit_char(part[i]) {
            return false;
        }
        i += 1;
    }
    true
}

fn all_number_parts(parts: &Vec<Vec<char>>) -> (b: bool)
    ensures
        b == all_numbers(pieces(parts@)),
{
    let mut k: usize = 0;
    while k < parts.len()
        invariant
            k <= parts.len(),
            forall|j: int| 0 <= j < k ==> is_number(#[trigger] pieces(parts@)[j]),
        decreases parts.len() - k,
    {
        if !is_number_part(&parts[k]) {
            assert(!is_number(pieces(parts@)[k as int]));
            return false;
        }
        assert(is_number(pieces(parts@)[k as int]));
        k += 1;
    }
    true
}

fn padded_digit(digits: &Vec<char>, len: usize, k: usize) -> (c: char)
    requires
        digits.len() <= len,
        k < len,
    ensures
        c == padded(digits@, len as int)[k as int],
{
    let shift = len - digits.len();
    if k < shift {
        '0'
    } else {
        digits[k - shift]
    }
}

/// Compares two runs of digits as numbers, whatever their lengths.
fn compare_digits(x: &Vec<char>, y: &Vec<char>) -> (r: i32)
    requires
        all_digits(x@),
        all_digits(y@),
    ensures
        r == number_order(number_value(x@), number_value(y@)),
{
    let len = if x.len() < y.len() {
        y.len()
    } else {
        x.len()
    };
    let ghost p = padded(x@, len as int);
    let ghost q = padded(y@, len as int);
    proof {
        lemma_padded_value(x@, len as int);
        lemma_padded_value(y@, len as int);
        assert(all_digits(p));
        assert(all_digits(q));
    }
    let mut k: usize = 0;
    while k < len
        invariant
            k <= len,
            x.len() <= len,
            y.len() <= len,
            p == padded(x@, len as int),
            q == padded(y@, len as int),
            all_digits(p),
            all_digits(q),
            p.take(k as int) == q.take(k as int),
            number_value(p) == number_value(x@),
            number_value(q) == number_value(y@),
        decreases len - k,
    {
        let dx = padded_digit(x, len, k);
        let dy = padded_digit(y, len, k);
        assert(is_digit(p[k as int]) && is_digit(q[k as int]));
        if dx < dy {
            proof {
                lemma_first_digit_decides(p, q, k as int);
            }
            return -1;
        }
        if dx > dy {
            proof {
                lemma_first_digit_decides(q, p, k as int);
            }
            return 1;
        }
        assert(p.take(k + 1) =~= p.take(k as int).push(p[k as int]));
        assert(q.take(k + 1) =~= q.take(k as int).push(q[k as int]));
        k += 1;
    }
    assert(p =~= p.take(len as int));
    assert(q =~= q.take(len as int));
    0
}

/// Compares two split versions, each component an unsigned integer.
fn compare_parts(a: &Vec<Vec<char>>, b: &Vec<Vec<char>>) -> (r: i32)
    requires
        all_numbers(pieces(a@)),
        all_numbers(pieces(b@)),
    ensures
        r == version_order(numbers_of(pieces(a@)), numbers_of(pieces(b@))),
{
    let ghost va = numbers_of(pieces(a@));
    let ghost vb = numbers_of(pieces(b@));
    let len = if a.len() < b.len() {
        b.len()
    } else {
        a.len()
    };
    let zero: Vec<char> = Vec::new();
    let mut i: usize = 0;
    while i < len
        invariant
            i <= len,
            a.len() <= len,
            b.len() <= len,
            zero@.len() == 0,
            va == numbers_of(pieces(a@)),
            vb == numbers_of(pieces(b@)),
            all_numbers(pieces(a@)),
            all_numbers(pieces(b@)),
            forall|j: int| 0 <= j < i ==> component(va, j) == component(vb, j),
        decreases len - i,
    {
        let x = if i < a.len() {
            assert(is_number(pieces(a@)[i as int]));
            &a[i]
        } else {
            &zero
        };
        let y = if i < b.len() {
            assert(is_number(pieces(b@)[i as int]));
            &b[i]
        } else {
            &zero
        };
        assert(number_value(x@) == component(va, i as int));
        assert(number_value(y@) == component(vb, i as int));
        let r = compare_digits(x, y);
        if r != 0 {
            proof {
                lemma_order_at_first_difference(va, vb, i as int);
            }
            return r;
        }
        i += 1;
    }
    assert forall|k: int| !first_difference(va, vb, k) by {
        if 0 <= k {
            assert(component(va, k) == component(vb, k));
        }
    }
    0
}

/// Compares two dotted versions: -1, 0 or 1 as `a` is older than `b`, the
/// same or newer. A version that is shorter than the other counts as
/// continued with zeros. Where a component of either string is not an
/// unsigned integer, no order is given.
pub fn compare_version(a: &str, b: &str) -> (r: Result<i32, InvalidVersion>)
    ensures
        r is Ok <==> is_version(a@) && is_version(b@),
        r is Ok ==> r->Ok_0 == compare_spec(a@, b@),
        r is Ok ==> -1 <= r->Ok_0 <= 1,
{
    let a_chars = chars_of(a);
    let b_chars = chars_of(b);
    let a_parts = split_on_dots(&a_chars);
    let b_parts = split_on_dots(&b_chars);
    if !all_number_parts(&a_parts) || !all_number_parts(&b_parts) {
        return Err(InvalidVersion);
    }
    Ok(compare_parts(&a_parts, &b_parts))
}

} // verus!
