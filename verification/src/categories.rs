//! The sorted list of user-defined categories, and the order on texts it uses.
use vstd::prelude::*;

use crate::model::App;
use crate::text::{chars_of, same_text};

verus! {

/// Text order as `str` compares: character by character by code point (the
/// byte order of UTF-8), a proper prefix before any longer text.
pub open spec fn text_lt(a: Seq<char>, b: Seq<char>) -> bool
    decreases a.len(),
{
    if a.len() == 0 {
        b.len() > 0
    } else if b.len() == 0 {
        false
    } else if a[0] != b[0] {
        a[0] < b[0]
    } else {
        text_lt(a.drop_first(), b.drop_first())
    }
}

/// Each text comes strictly before the next.
pub open spec fn strictly_ascending(s: Seq<Seq<char>>) -> bool {
    forall|i: int, j: int| 0 <= i < j < s.len() ==> text_lt(#[trigger] s[i], #[trigger] s[j])
}

/// `c` is the category of some app and is not empty.
pub open spec fn is_category_of(c: Seq<char>, apps: Seq<App>) -> bool {
    c.len() > 0 && exists|i: int| 0 <= i < apps.len() && #[trigger] apps[i].category@ == c
}

/// `s` lists every non-empty category of `apps` exactly once, in ascending order.
pub open spec fn lists_categories(s: Seq<Seq<char>>, apps: Seq<App>) -> bool {
    &&& strictly_ascending(s)
    &&& forall|c: Seq<char>| #[trigger] s.contains(c) <==> is_category_of(c, apps)
}

/// The categories of `apps`: unique, sorted, non-empty.
pub open spec fn categories_of(apps: Seq<App>) -> Seq<Seq<char>> {
    choose|s: Seq<Seq<char>>| lists_categories(s, apps)
}

/// No text comes before itself.
pub proof fn lemma_text_lt_irreflexive(a: Seq<char>)
    ensures
        !text_lt(a, a),
    decreases a.len(),
{
    if a.len() > 0 {
        lemma_text_lt_irreflexive(a.drop_first());
    }
}

/// Text order is transitive.
pub proof fn lemma_text_lt_transitive(a: Seq<char>, b: Seq<char>, c: Seq<char>)
    requires
        text_lt(a, b),
        text_lt(b, c),
    ensures
        text_lt(a, c),
    decreases a.len(),
{
    if a.len() > 0 && b.len() > 0 && c.len() > 0 {
        if a[0] == b[0] && b[0] == c[0] {
            lemma_text_lt_transitive(a.drop_first(), b.drop_first(), c.drop_first());
        }
    }
}

/// Of two different texts, one comes before the other.
pub proof fn lemma_text_lt_total(a: Seq<char>, b: Seq<char>)
    ensures
        a == b || text_lt(a, b) || text_lt(b, a),
    decreases a.len(),
{
    if a.len() > 0 && b.len() > 0 && a[0] == b[0] {
        lemma_text_lt_total(a.drop_first(), b.drop_first());
        if a.drop_first() == b.drop_first() {
            assert(a =~= seq![a[0]] + a.drop_first());
            assert(b =~= seq![b[0]] + b.drop_first());
        }
    } else if a.len() == 0 && b.len() == 0 {
        assert(a =~= b);
    }
}

/// When `a` comes before `b`, `b` does not come before `a`.
pub proof fn lemma_text_lt_asymmetric(a: Seq<char>, b: Seq<char>)
    requires
        text_lt(a, b),
    ensures
        !text_lt(b, a),
{
    if text_lt(b, a) {
        lemma_text_lt_transitive(a, b, a);
        lemma_text_lt_irreflexive(a);
    }
}

/// Text order compares from the first character: `a` comes before `b` exactly
/// when, at the first index where they differ, `a` has the smaller character,
/// or when `a` is a proper prefix of `b`.
pub proof fn lemma_text_lt_first_difference(a: Seq<char>, b: Seq<char>)
    ensures
        text_lt(a, b) <==> (exists|i: int|
            0 <= i < a.len() && i < b.len() && #[trigger] a[i] < b[i] && forall|j: int|
                0 <= j < i ==> #[trigger] a[j] == b[j]) || (a.len() < b.len() && forall|j: int|
            0 <= j < a.len() ==> #[trigger] a[j] == b[j]),
    decreases a.len(),
{
    if a.len() == 0 || b.len() == 0 {
    } else if a[0] != b[0] {
        if a[0] < b[0] {
            assert(a[0] < b[0] && forall|j: int| 0 <= j < 0 ==> #[trigger] a[j] == b[j]);
        } else {
            if exists|i: int|
                0 <= i < a.len() && i < b.len() && #[trigger] a[i] < b[i] && forall|j: int|
                    0 <= j < i ==> #[trigger] a[j] == b[j] {
                let i = choose|i: int|
                    0 <= i < a.len() && i < b.len() && #[trigger] a[i] < b[i] && forall|j: int|
                        0 <= j < i ==> #[trigger] a[j] == b[j];
                if i > 0 {
                    assert(a[0] == b[0]);
                }
            }
        }
    } else {
        let a1 = a.drop_first();
        let b1 = b.drop_first();
        lemma_text_lt_first_difference(a1, b1);
        if exists|i: int|
            0 <= i < a.len() && i < b.len() && #[trigger] a[i] < b[i] && forall|j: int|
                0 <= j < i ==> #[trigger] a[j] == b[j] {
            let i = choose|i: int|
                0 <= i < a.len() && i < b.len() && #[trigger] a[i] < b[i] && forall|j: int|
                    0 <= j < i ==> #[trigger] a[j] == b[j];
            assert(i > 0);
            assert(a1[i - 1] == a[i] && b1[i - 1] == b[i]);
            assert forall|j: int| 0 <= j < i - 1 implies #[trigger] a1[j] == b1[j] by {
                assert(a[j + 1] == b[j + 1]);
            }
        }
        if exists|i: int|
            0 <= i < a1.len() && i < b1.len() && #[trigger] a1[i] < b1[i] && forall|j: int|
                0 <= j < i ==> #[trigger] a1[j] == b1[j] {
            let i = choose|i: int|
                0 <= i < a1.len() && i < b1.len() && #[trigger] a1[i] < b1[i] && forall|j: int|
                    0 <= j < i ==> #[trigger] a1[j] == b1[j];
            assert(a[i + 1] < b[i + 1]);
            assert forall|j: int| 0 <= j < i + 1 implies #[trigger] a[j] == b[j] by {
                if j > 0 {
                    assert(a1[j - 1] == b1[j - 1]);
                }
            }
        }
        if a.len() < b.len() && forall|j: int| 0 <= j < a.len() ==> #[trigger] a[j] == b[j] {
            assert forall|j: int| 0 <= j < a1.len() implies #[trigger] a1[j] == b1[j] by {
                assert(a[j + 1] == b[j + 1]);
            }
        }
        if a1.len() < b1.len() && forall|j: int| 0 <= j < a1.len() ==> #[trigger] a1[j] == b1[j] {
            assert forall|j: int| 0 <= j < a.len() implies #[trigger] a[j] == b[j] by {
                if j > 0 {
                    assert(a1[j - 1] == b1[j - 1]);
                }
            }
        }
    }
}

/// Two ascending lists of the same texts are the same list.
pub proof fn lemma_ascending_unique(s: Seq<Seq<char>>, t: Seq<Seq<char>>)
    requires
        strictly_ascending(s),
        strictly_ascending(t),
        forall|c: Seq<char>| s.contains(c) <==> t.contains(c),
    ensures
        s == t,
    decreases s.len(),
{
    if s.len() == 0 {
        if t.len() > 0 {
            assert(t.contains(t[0]));
        }
        assert(s =~= t);
    } else {
        assert(s.contains(s[0]));
        assert(t.len() > 0);
        assert(t.contains(t[0]));
        let i = choose|i: int| 0 <= i < t.len() && t[i] == s[0];
        let j = choose|j: int| 0 <= j < s.len() && s[j] == t[0];
        if s[0] != t[0] {
            if i > 0 {
                assert(text_lt(t[0], t[i]));
            }
            if j > 0 {
                assert(text_lt(s[0], s[j]));
            }
            lemma_text_lt_asymmetric(s[0], t[0]);
            assert(false);
        }
        let s1 = s.drop_first();
        let t1 = t.drop_first();
        assert forall|c: Seq<char>| s1.contains(c) <==> t1.contains(c) by {
            if s1.contains(c) {
                let k = choose|k: int| 0 <= k < s1.len() && s1[k] == c;
                assert(text_lt(s[0], s[k + 1]));
                lemma_text_lt_irreflexive(c);
                assert(t.contains(c));
                let m = choose|m: int| 0 <= m < t.len() && t[m] == c;
                assert(m != 0);
                assert(t1[m - 1] == c);
            }
            if t1.contains(c) {
                let k = choose|k: int| 0 <= k < t1.len() && t1[k] == c;
                assert(text_lt(t[0], t[k + 1]));
                lemma_text_lt_irreflexive(c);
                assert(s.contains(c));
                let m = choose|m: int| 0 <= m < s.len() && s[m] == c;
                assert(m != 0);
                assert(s1[m - 1] == c);
            }
        }
        lemma_ascending_unique(s1, t1);
        assert(s =~= seq![s[0]] + s1);
        assert(t =~= seq![t[0]] + t1);
    }
}

/// Whether `a` comes strictly before `b` in text order.
pub fn text_less(a: &str, b: &str) -> (r: bool)
    ensures
        r == text_lt(a@, b@),
{
    let x = chars_of(a);
    let y = chars_of(b);
    let mut i: usize = 0;
    assert(x@.skip(0) =~= x@);
    assert(y@.skip(0) =~= y@);
    while i < x.len() && i < y.len()
        invariant
            x@ == a@,
            y@ == b@,
            i <= x@.len(),
            i <= y@.len(),
            text_lt(a@, b@) == text_lt(x@.skip(i as int), y@.skip(i as int)),
        decreases x@.len() - i,
    {
        if x[i] != y[i] {
            return x[i] < y[i];
        }
        assert(x@.skip(i as int).drop_first() =~= x@.skip(i + 1));
        assert(y@.skip(i as int).drop_first() =~= y@.skip(i + 1));
        i = i + 1;
    }
    i == x.len() && i < y.len()
}

// The sorted set of categories is a `Vec` kept strictly ascending: vstd
// specifies `BTreeSet` only for keys whose `Ord` it models (integers, tuples,
// `Option`), and `String` is not among them, so nothing could be proved of a
// `BTreeSet<String>`'s contents or order.
/// Extract unique, sorted user-defined categories from apps.
/// Source (docker/podman/macos) is not a category — it has its own column.
pub fn extract_categories(apps: &[App]) -> (out: Vec<String>)
    ensures
        lists_categories(out.deep_view(), apps@),
        out.deep_view() == categories_of(apps@),
{
    let mut out: Vec<String> = Vec::new();
    let mut i: usize = 0;
    while i < apps.len()
        invariant
            i <= apps@.len(),
            strictly_ascending(out.deep_view()),
            forall|c: Seq<char>| #[trigger] out.deep_view().contains(c) <==> (c.len() > 0
                && exists|k: int| 0 <= k < i && #[trigger] apps@[k].category@ == c),
        decreases apps@.len() - i,
    {
        let cat = apps[i].category.as_str();
        let ghost before = out.deep_view();
        if !cat.is_empty() {
            let mut j: usize = 0;
            while j < out.len() && text_less(out[j].as_str(), cat)
                invariant
                    j <= out@.len(),
                    out.deep_view() == before,
                    forall|k: int| 0 <= k < j ==> text_lt(#[trigger] before[k], cat@),
                decreases out@.len() - j,
            {
                j = j + 1;
            }
            if j < out.len() && same_text(out[j].as_str(), cat) {
            } else {
                proof {
                    if j < before.len() {
                        lemma_text_lt_total(before[j as int], cat@);
                    }
                    assert forall|k: int| j <= k < before.len() implies text_lt(cat@, #[trigger] before[k]) by {
                        if k > j {
                            lemma_text_lt_transitive(cat@, before[j as int], before[k]);
                        }
                    }
                }
                out.insert(j, apps[i].category.clone());
                proof {
                    let after = out.deep_view();
                    assert(after =~= before.insert(j as int, cat@));
                    assert forall|p: int, q: int| 0 <= p < q < after.len() implies text_lt(
                        #[trigger] after[p],
                        #[trigger] after[q],
                    ) by {
                        if q == j {
                            assert(text_lt(before[p], cat@));
                        } else if p == j {
                            assert(text_lt(cat@, before[q - 1]));
                        } else if p < j && q > j {
                            assert(text_lt(before[p], before[q - 1]));
                        } else if p > j {
                            assert(text_lt(before[p - 1], before[q - 1]));
                        }
                    }
                    assert forall|c: Seq<char>| #[trigger] after.contains(c) <==> (before.contains(c) || c == cat@) by {
                        if after.contains(c) {
                            let k = choose|k: int| 0 <= k < after.len() && after[k] == c;
                            if k < j {
                                assert(before[k] == c);
                            } else if k > j {
                                assert(before[k - 1] == c);
                            }
                        }
                        if before.contains(c) {
                            let k = choose|k: int| 0 <= k < before.len() && before[k] == c;
                            if k < j {
                                assert(after[k] == c);
                            } else {
                                assert(after[k + 1] == c);
                            }
                        }
                        if c == cat@ {
                            assert(after[j as int] == c);
                        }
                    }
                }
            }
        }
        proof {
            let now = out.deep_view();
            assert forall|c: Seq<char>| #[trigger] now.contains(c) <==> (c.len() > 0
                && exists|k: int| 0 <= k < i + 1 && #[trigger] apps@[k].category@ == c) by {
                if c.len() > 0 && (exists|k: int| 0 <= k < i + 1 && #[trigger] apps@[k].category@ == c) {
                    let k = choose|k: int| 0 <= k < i + 1 && #[trigger] apps@[k].category@ == c;
                    if k < i {
                        assert(before.contains(c));
                    }
                }
                if now.contains(c) && !before.contains(c) {
                    assert(apps@[i as int].category@ == c);
                }
            }
        }
        i = i + 1;
    }
    proof {
        let s = out.deep_view();
        assert forall|c: Seq<char>| #[trigger] s.contains(c) <==> is_category_of(c, apps@) by {}
        assert(lists_categories(s, apps@));
        let t = categories_of(apps@);
        assert(lists_categories(t, apps@));
        lemma_ascending_unique(s, t);
    }
    out
}

} // verus!
