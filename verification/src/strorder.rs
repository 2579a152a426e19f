//! Lexicographic ordering on strings, by character code point.
//!
//! Escrow records are keyed by strings, and the paginated queries promise
//! results in ascending key order, so the crate needs a total order on
//! `Seq<char>` together with an executable comparison that matches it.

use vstd::prelude::*;

verus! {

/// Strict lexicographic order on the characters from position `i` on.
pub open spec fn str_lt_from(a: Seq<char>, b: Seq<char>, i: int) -> bool
    decreases b.len() - i,
    when 0 <= i <= a.len() && i <= b.len()
{
    if i >= b.len() {
        false
    } else if i >= a.len() {
        true
    } else if (a[i] as int) < (b[i] as int) {
        true
    } else if (a[i] as int) > (b[i] as int) {
        false
    } else {
        str_lt_from(a, b, i + 1)
    }
}

/// `a` comes strictly before `b` in lexicographic order.
pub open spec fn str_lt(a: Seq<char>, b: Seq<char>) -> bool {
    str_lt_from(a, b, 0)
}

/// From equal prefixes, the order is decided by the remainder:
/// at most one of `lt`, equality and reverse `lt` holds, and one of them does.
proof fn lemma_str_lt_from_trichotomy(a: Seq<char>, b: Seq<char>, i: int)
    requires
        0 <= i <= a.len(),
        i <= b.len(),
        forall|j: int| 0 <= j < i ==> a[j] == b[j],
    ensures
        str_lt_from(a, b, i) ==> !str_lt_from(b, a, i) && a != b,
        !str_lt_from(a, b, i) && !str_lt_from(b, a, i) ==> a =~= b,
    decreases b.len() - i,
{
    if i >= b.len() {
        if i >= a.len() {
            assert(a.len() == b.len());
            if !str_lt_from(a, b, i) && !str_lt_from(b, a, i) {
                assert(a =~= b);
            }
        }
    } else if i >= a.len() {
        assert(a.len() < b.len());
        assert(str_lt_from(a, b, i));
        assert(a != b) by {
            assert(a.len() != b.len());
        }
    } else if (a[i] as int) < (b[i] as int) {
        assert(a[i] != b[i]);
        assert(a != b);
    } else if (a[i] as int) > (b[i] as int) {
        assert(a[i] != b[i]);
        assert(a != b);
    } else {
        assert(a[i] == b[i]);
        lemma_str_lt_from_trichotomy(a, b, i + 1);
    }
}

/// Trichotomy: of `str_lt(a, b)`, `a == b` and `str_lt(b, a)`, exactly one holds.
pub proof fn lemma_str_lt_trichotomy(a: Seq<char>, b: Seq<char>)
    ensures
        str_lt(a, b) ==> !str_lt(b, a) && a != b,
        !str_lt(a, b) && !str_lt(b, a) ==> a == b,
        a == b ==> !str_lt(a, b),
    decreases b.len(),
{
    lemma_str_lt_from_trichotomy(a, b, 0);
    if a == b {
        lemma_str_lt_from_trichotomy(b, a, 0);
        if str_lt(a, b) {
            assert(!str_lt(b, a));
            assert(str_lt(b, a));
        }
    }
}

proof fn lemma_str_lt_from_transitive(a: Seq<char>, b: Seq<char>, c: Seq<char>, i: int)
    requires
        0 <= i <= a.len(),
        i <= b.len(),
        i <= c.len(),
        str_lt_from(a, b, i),
        str_lt_from(b, c, i),
    ensures
        str_lt_from(a, c, i),
    decreases c.len() - i,
{
    if i >= a.len() {
        assert(i < c.len());
    } else if i >= b.len() {
        assert(false);
    } else if (a[i] as int) < (b[i] as int) {
        if (b[i] as int) <= (c[i] as int) {
        }
    } else {
        assert(a[i] == b[i]);
        if (b[i] as int) < (c[i] as int) {
        } else {
            assert(b[i] == c[i]);
            lemma_str_lt_from_transitive(a, b, c, i + 1);
        }
    }
}

/// Transitivity of the lexicographic order.
pub proof fn lemma_str_lt_transitive(a: Seq<char>, b: Seq<char>, c: Seq<char>)
    requires
        str_lt(a, b),
        str_lt(b, c),
    ensures
        str_lt(a, c),
{
    lemma_str_lt_from_transitive(a, b, c, 0);
}

/// Executable comparison: `r` holds exactly when `a` comes strictly
/// before `b` in lexicographic order.
pub fn str_is_lt(a: &str, b: &str) -> (r: bool)
    ensures
        r == str_lt(a@, b@),
{
    let a_len: usize = a.unicode_len();
    let b_len: usize = b.unicode_len();
    let mut i: usize = 0;
    loop
        invariant
            0 <= i <= a_len,
            i <= b_len,
            a_len == a@.len(),
            b_len == b@.len(),
            str_lt(a@, b@) == str_lt_from(a@, b@, i as int),
        decreases b_len - i,
    {
        if i >= b_len {
            return false;
        }
        if i >= a_len {
            return true;
        }
        let ca: u32 = a.get_char(i) as u32;
        let cb: u32 = b.get_char(i) as u32;
        if ca < cb {
            return true;
        }
        if ca > cb {
            return false;
        }
        assert(a@[i as int] == b@[i as int]);
        i = i + 1;
    }
}

} // verus!
