//! What holds of the order of versions.

use crate::version::{
    all_numbers, component, compare_spec, first_difference, first_dot, is_number, is_version,
    lemma_first_difference_unique, lemma_first_dot_bounds, lemma_first_dot_found,
    lemma_order_at_first_difference, number_value, numbers_of, split_dots, version_numbers,
    version_order,
};
use vstd::prelude::*;

verus! {

/// Two versions that differ somewhere differ somewhere first.
pub proof fn lemma_first_difference_exists(a: Seq<nat>, b: Seq<nat>, k: int)
    requires
        0 <= k,
        component(a, k) != component(b, k),
    ensures
        exists|j: int| 0 <= j <= k && first_difference(a, b, j),
    decreases k,
{
    if forall|i: int| 0 <= i < k ==> component(a, i) == component(b, i) {
        assert(first_difference(a, b, k));
    } else {
        let i = choose|i: int| 0 <= i < k && component(a, i) != component(b, i);
        lemma_first_difference_exists(a, b, i);
    }
}

/// The order is 0 exactly for versions with the same components, the
/// shorter one continued with zeros.
pub proof fn law_equal_versions(a: Seq<nat>, b: Seq<nat>)
    ensures
        version_order(a, b) == 0 <==> forall|k: int| 0 <= k ==> component(a, k) == component(b, k),
{
    if version_order(a, b) == 0 {
        assert forall|k: int| 0 <= k implies component(a, k) == component(b, k) by {
            if component(a, k) != component(b, k) {
                lemma_first_difference_exists(a, b, k);
            }
        }
    }
    if forall|k: int| 0 <= k ==> component(a, k) == component(b, k) {
        assert forall|k: int| !first_difference(a, b, k) by {
            if 0 <= k {
                assert(component(a, k) == component(b, k));
            }
        }
    }
}

/// Every version equals itself.
pub proof fn law_order_is_reflexive(a: Seq<nat>)
    ensures
        version_order(a, a) == 0,
{
    law_equal_versions(a, a);
}

/// Turning the two versions round turns the order round.
pub proof fn law_order_is_antisymmetric(a: Seq<nat>, b: Seq<nat>)
    ensures
        version_order(b, a) == -version_order(a, b),
{
    if exists|k: int| first_difference(a, b, k) {
        let k = choose|k: int| first_difference(a, b, k);
        assert(first_difference(b, a, k));
        lemma_order_at_first_difference(a, b, k);
        lemma_order_at_first_difference(b, a, k);
    } else {
        assert forall|k: int| !first_difference(b, a, k) by {
            if first_difference(b, a, k) {
                assert(first_difference(a, b, k));
            }
        }
    }
}

/// A version that is not newer than a second, which is not newer than a
/// third, is not newer than the third.
pub proof fn law_order_is_transitive(a: Seq<nat>, b: Seq<nat>, c: Seq<nat>)
    requires
        version_order(a, b) <= 0,
        version_order(b, c) <= 0,
    ensures
        version_order(a, c) <= 0,
{
    if exists|k: int| first_difference(a, c, k) {
        let k = choose|k: int| first_difference(a, c, k);
        lemma_order_at_first_difference(a, c, k);
        if component(a, k) > component(c, k) {
            // Then a and b, or b and c, differ at k or before it.
            if component(a, k) != component(b, k) {
                lemma_first_difference_exists(a, b, k);
            }
            if component(b, k) != component(c, k) {
                lemma_first_difference_exists(b, c, k);
            }
            if exists|i: int| first_difference(a, b, i) {
                let i = choose|i: int| first_difference(a, b, i);
                lemma_order_at_first_difference(a, b, i);
                if exists|j: int| first_difference(b, c, j) {
                    let j = choose|j: int| first_difference(b, c, j);
                    lemma_order_at_first_difference(b, c, j);
                    if i <= j {
                        lemma_between(a, b, c, i, k);
                    } else {
                        lemma_between(a, b, c, j, k);
                    }
                } else {
                    law_equal_versions(b, c);
                    lemma_between(a, b, c, i, k);
                }
            } else {
                law_equal_versions(a, b);
                let j = choose|j: int| first_difference(b, c, j);
                lemma_order_at_first_difference(b, c, j);
                lemma_between(a, b, c, j, k);
            }
        }
    }
}

/// Where `a`, `b` and `c` agree before `m`, and `a` and `c` differ at `m`,
/// the first difference of `a` and `c` is at `m`.
proof fn lemma_between(a: Seq<nat>, b: Seq<nat>, c: Seq<nat>, m: int, k: int)
    requires
        0 <= m,
        forall|i: int| 0 <= i < m ==> component(a, i) == component(b, i),
        forall|i: int| 0 <= i < m ==> component(b, i) == component(c, i),
        component(a, m) != component(c, m),
        first_difference(a, c, k),
    ensures
        k == m,
{
    assert(first_difference(a, c, m));
    lemma_first_difference_unique(a, c, k, m);
}

/// A zero at the end of a version does not change its place in the order.
pub proof fn law_trailing_zero_is_ignored(a: Seq<nat>, b: Seq<nat>)
    ensures
        version_order(a.push(0), b) == version_order(a, b),
        version_order(b, a.push(0)) == version_order(b, a),
        version_order(a.push(0), a) == 0,
{
    let longer = a.push(0);
    assert forall|k: int| component(longer, k) == component(a, k) by {}
    assert forall|k: int| first_difference(longer, b, k) == first_difference(a, b, k) by {}
    if exists|k: int| first_difference(a, b, k) {
        let k = choose|k: int| first_difference(a, b, k);
        assert(first_difference(longer, b, k));
        lemma_order_at_first_difference(a, b, k);
        lemma_order_at_first_difference(longer, b, k);
    } else {
        assert forall|k: int| !first_difference(longer, b, k) by {
            assert(first_difference(longer, b, k) == first_difference(a, b, k));
        }
    }
    law_order_is_antisymmetric(longer, b);
    law_order_is_antisymmetric(a, b);
    law_equal_versions(longer, a);
}

/// The pieces of a text that ends in a dot and a last piece without dots
/// are the pieces of the text before that dot, and the last piece.
pub proof fn lemma_split_with_last_piece(s: Seq<char>, last: Seq<char>)
    requires
        forall|i: int| 0 <= i < last.len() ==> last[i] != '.',
    ensures
        split_dots(s + seq!['.'] + last) == split_dots(s).push(last),
    decreases s.len(),
{
    let whole = s + seq!['.'] + last;
    lemma_first_dot_bounds(s);
    let i = first_dot(s);
    if i < s.len() {
        assert forall|j: int| 0 <= j < i implies whole[j] != '.' by {
            assert(whole[j] == s[j]);
        }
        assert(whole[i] == s[i]);
        lemma_first_dot_found(whole, i);
        assert(whole.take(i) =~= s.take(i));
        assert(whole.skip(i + 1) =~= s.skip(i + 1) + seq!['.'] + last);
        lemma_split_with_last_piece(s.skip(i + 1), last);
        assert(split_dots(whole) =~= split_dots(s).push(last));
    } else {
        assert forall|j: int| 0 <= j < s.len() implies whole[j] != '.' by {
            assert(whole[j] == s[j]);
        }
        assert(whole[s.len() as int] == '.');
        lemma_first_dot_found(whole, s.len() as int);
        assert(whole.take(s.len() as int) =~= s);
        assert(whole.skip(s.len() as int + 1) =~= last);
        lemma_first_dot_found(last, last.len() as int);
        assert(split_dots(last) =~= seq![last]);
        assert(split_dots(s) =~= seq![s]);
        assert(split_dots(whole) =~= seq![s] + split_dots(last));
        assert(split_dots(whole) =~= split_dots(s).push(last));
    }
}

/// A version and the same version with `.0` behind it are one version:
/// both are valid or neither is, and no third version tells them apart.
pub proof fn law_missing_component_counts_as_zero(s: Seq<char>, other: Seq<char>)
    ensures
        is_version(s + seq!['.', '0']) <==> is_version(s),
        compare_spec(s + seq!['.', '0'], other) == compare_spec(s, other),
        compare_spec(other, s + seq!['.', '0']) == compare_spec(other, s),
        compare_spec(s + seq!['.', '0'], s) == 0,
{
    let zero = seq!['0'];
    let longer = s + seq!['.', '0'];
    assert(longer =~= s + seq!['.'] + zero);
    lemma_split_with_last_piece(s, zero);
    let parts = split_dots(s);
    let more = split_dots(longer);
    assert(more == parts.push(zero));
    assert(is_number(zero));
    assert(zero.drop_last() =~= Seq::<char>::empty());
    assert(number_value(zero) == 0) by {
        reveal_with_fuel(number_value, 2);
    }
    if all_numbers(parts) {
        assert forall|k: int| 0 <= k < more.len() implies is_number(#[trigger] more[k]) by {
            if k < parts.len() {
                assert(more[k] == parts[k]);
            }
        }
    }
    if all_numbers(more) {
        assert forall|k: int| 0 <= k < parts.len() implies is_number(#[trigger] parts[k]) by {
            assert(more[k] == parts[k]);
        }
    }
    assert(numbers_of(more) =~= numbers_of(parts).push(0));
    law_trailing_zero_is_ignored(version_numbers(s), version_numbers(other));
}

} // verus!
