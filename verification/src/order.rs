//! Alphabetical order of strings, by code point.

use vstd::prelude::*;

use crate::strings::{chars_of, lists_string};

verus! {

/// Whether `a` comes before `b`: at the first place where they differ its
/// character is the lower one, or it ends there.
pub open spec fn comes_before(a: Seq<char>, b: Seq<char>) -> bool
    decreases a.len(),
{
    if b.len() == 0 {
        false
    } else if a.len() == 0 {
        true
    } else if a[0] != b[0] {
        (a[0] as u32) < (b[0] as u32)
    } else {
        comes_before(a.skip(1), b.skip(1))
    }
}

/// Whether a list of strings is in strictly ascending order.
pub open spec fn ascending(list: Seq<String>) -> bool {
    forall|i: int, j: int|
        0 <= i < j < list.len() ==> comes_before((#[trigger] list[i])@, (#[trigger] list[j])@)
}

proof fn lemma_code_points_differ(a: char, b: char)
    requires
        a != b,
    ensures
        (a as u32) != (b as u32),
{
}

/// The order is total: of two strings that differ, one comes before the other.
pub proof fn law_order_is_total(a: Seq<char>, b: Seq<char>)
    ensures
        a != b ==> comes_before(a, b) || comes_before(b, a),
        comes_before(a, b) ==> !comes_before(b, a) && a != b,
    decreases a.len(),
{
    if a.len() > 0 && b.len() > 0 {
        law_order_is_total(a.skip(1), b.skip(1));
        if a[0] == b[0] {
            if a.skip(1) == b.skip(1) {
                assert(a =~= seq![a[0]] + a.skip(1));
                assert(b =~= seq![b[0]] + b.skip(1));
            }
        } else {
            lemma_code_points_differ(a[0], b[0]);
        }
    } else if a.len() == 0 && b.len() == 0 {
        assert(a =~= b);
    }
}

/// The order is transitive.
pub proof fn law_order_is_transitive(a: Seq<char>, b: Seq<char>, c: Seq<char>)
    requires
        comes_before(a, b),
        comes_before(b, c),
    ensures
        comes_before(a, c),
    decreases a.len(),
{
    if a.len() > 0 && a[0] == b[0] && b[0] == c[0] {
        law_order_is_transitive(a.skip(1), b.skip(1), c.skip(1));
    }
}

/// Whether `a` comes before `b`.
pub fn is_before(a: &str, b: &str) -> (r: bool)
    ensures
        r == comes_before(a@, b@),
{
    let x = chars_of(a);
    let y = chars_of(b);
    let mut i: usize = 0;
    assert(x@.skip(0) == x@ && y@.skip(0) == y@);
    while i < x.len() && i < y.len()
        invariant
            i <= x@.len(),
            i <= y@.len(),
            x@ == a@,
            y@ == b@,
            comes_before(a@, b@) == comes_before(x@.skip(i as int), y@.skip(i as int)),
        decreases x@.len() - i,
    {
        assert(x@.skip(i as int)[0] == x@[i as int]);
        assert(y@.skip(i as int)[0] == y@[i as int]);
        if x[i] != y[i] {
            return (x[i] as u32) < (y[i] as u32);
        }
        assert(x@.skip(i as int).skip(1) == x@.skip(i + 1));
        assert(y@.skip(i as int).skip(1) == y@.skip(i + 1));
        i = i + 1;
    }
    i < y.len()
}

proof fn lemma_insert_ascending(list: Seq<String>, at: int, s: String)
    requires
        ascending(list),
        0 <= at <= list.len(),
        forall|i: int| 0 <= i < at ==> comes_before((#[trigger] list[i])@, s@),
        at < list.len() ==> comes_before(s@, list[at]@),
    ensures
        ascending(list.insert(at, s)),
        forall|x: Seq<char>| #[trigger]
            lists_string(list.insert(at, s), x) <==> lists_string(list, x) || x == s@,
{
    let next = list.insert(at, s);
    assert forall|i: int, j: int| 0 <= i < j < next.len() implies comes_before(
        (#[trigger] next[i])@,
        (#[trigger] next[j])@,
    ) by {
        let a = if i < at {
            i
        } else {
            i - 1
        };
        let b = if j < at {
            j
        } else {
            j - 1
        };
        if i != at && j != at {
            assert(comes_before(list[a]@, list[b]@));
        } else if i == at {
            if b > at {
                law_order_is_transitive(s@, list[at]@, list[b]@);
            }
        } else {
            assert(comes_before(list[a]@, s@));
        }
    }
    assert forall|x: Seq<char>| #[trigger] lists_string(next, x) <==> lists_string(list, x) || x
        == s@ by {
        if lists_string(list, x) {
            let i = choose|i: int| 0 <= i < list.len() && (#[trigger] list[i])@ == x;
            if i < at {
                assert(next[i]@ == x);
            } else {
                assert(next[i + 1]@ == x);
            }
        }
        if x == s@ {
            assert(next[at]@ == x);
        }
        if lists_string(next, x) {
            let i = choose|i: int| 0 <= i < next.len() && (#[trigger] next[i])@ == x;
            if i < at {
                assert(list[i]@ == x);
            } else if i > at {
                assert(list[i - 1]@ == x);
            }
        }
    }
}

/// Puts a string into its place in an ascending list; a string that is there
/// already is not put in again.
pub fn insert_in_order(list: &mut Vec<String>, s: String)
    requires
        ascending(old(list)@),
    ensures
        ascending(final(list)@),
        forall|x: Seq<char>| #[trigger]
            lists_string(final(list)@, x) <==> lists_string(old(list)@, x) || x == s@,
{
    let n: usize = list.len();
    let mut at: usize = 0;
    while at < n && is_before(list[at].as_str(), s.as_str())
        invariant
            at <= n,
            n == list@.len(),
            list@ == old(list)@,
            forall|i: int| 0 <= i < at ==> comes_before((#[trigger] list@[i])@, s@),
        decreases n - at,
    {
        at = at + 1;
    }
    if at < n {
        if list[at] == s {
            assert(list@[at as int]@ == s@);
            return;
        }
        proof {
            law_order_is_total(s@, list@[at as int]@);
        }
    }
    proof {
        lemma_insert_ascending(list@, at as int, s);
    }
    list.insert(at, s);
}

/// A text comes before every longer one that begins with it, and what two texts
/// have in common at their beginning does not count.
pub proof fn law_order_goes_by_first_difference(
    common: Seq<char>,
    a: char,
    b: char,
    x: Seq<char>,
    y: Seq<char>,
)
    ensures
        comes_before(common, common.push(a) + x),
        (a as u32) < (b as u32) ==> comes_before(common.push(a) + x, common.push(b) + y),
    decreases common.len(),
{
    let p = common.push(a) + x;
    let q = common.push(b) + y;
    if common.len() > 0 {
        law_order_goes_by_first_difference(common.skip(1), a, b, x, y);
        assert(p.skip(1) =~= common.skip(1).push(a) + x);
        assert(q.skip(1) =~= common.skip(1).push(b) + y);
        assert(p[0] == common[0] && q[0] == common[0]);
    } else {
        assert(p[0] == a && q[0] == b);
    }
}

/// In an ascending list each string comes before all behind it, so none is there
/// twice.
pub proof fn law_ascending_lists_hold_nothing_twice(list: Seq<String>, i: int, j: int)
    requires
        ascending(list),
        0 <= i < j < list.len(),
    ensures
        comes_before(list[i]@, list[j]@),
        list[i]@ != list[j]@,
{
    law_order_is_total(list[i]@, list[j]@);
}

} // verus!
