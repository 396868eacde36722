//! Gallery lister: orders the file names of the media directory in
//! descending lexicographic order (most recent first under sortable
//! naming) and truncates the result to the configured display count.

use vstd::prelude::*;
use vstd::seq_lib::lemma_multiset_commutative;

verus! {

/// `a` is at or before `b` in ascending lexicographic order of
/// character code points: `a` is a prefix of `b`, or the first
/// character on which they differ is smaller in `a`.
pub open spec fn lex_leq(a: Seq<char>, b: Seq<char>) -> bool
    decreases a.len(),
{
    if a.len() == 0 {
        true
    } else if b.len() == 0 {
        false
    } else if a[0] == b[0] {
        lex_leq(a.drop_first(), b.drop_first())
    } else {
        (a[0] as u32) < (b[0] as u32)
    }
}

pub proof fn lemma_lex_leq_total(a: Seq<char>, b: Seq<char>)
    ensures
        lex_leq(a, b) || lex_leq(b, a),
    decreases a.len(),
{
    if a.len() > 0 && b.len() > 0 {
        if a[0] == b[0] {
            lemma_lex_leq_total(a.drop_first(), b.drop_first());
        } else {
            vstd::utf8::char_u32_cast(a[0], a[0] as u32);
            vstd::utf8::char_u32_cast(b[0], b[0] as u32);
        }
    }
}

pub proof fn lemma_lex_leq_transitive(a: Seq<char>, b: Seq<char>, c: Seq<char>)
    requires
        lex_leq(a, b),
        lex_leq(b, c),
    ensures
        lex_leq(a, c),
    decreases a.len(),
{
    if a.len() > 0 {
        if a[0] == b[0] && b[0] == c[0] {
            lemma_lex_leq_transitive(a.drop_first(), b.drop_first(), c.drop_first());
        }
    }
}

/// The whole listing is ordered in descending lexicographic order:
/// every later entry is at or below every earlier one.
pub open spec fn sorted_desc(s: Seq<Seq<char>>) -> bool {
    forall|i: int, j: int| 0 <= i < j < s.len() ==> #[trigger] lex_leq(s[j], s[i])
}

/// Where a name lands when inserted into a descending listing: before
/// the first entry at or below it.
pub open spec fn insert_desc(x: Seq<char>, s: Seq<Seq<char>>) -> Seq<Seq<char>>
    decreases s.len(),
{
    if s.len() == 0 {
        seq![x]
    } else if lex_leq(s[0], x) {
        seq![x] + s
    } else {
        seq![s[0]] + insert_desc(x, s.drop_first())
    }
}

/// The descending sort of a listing, by repeated insertion.
pub open spec fn sort_desc(s: Seq<Seq<char>>) -> Seq<Seq<char>>
    decreases s.len(),
{
    if s.len() == 0 {
        Seq::empty()
    } else {
        insert_desc(s[0], sort_desc(s.drop_first()))
    }
}

/// What `list` shows: the entries in descending order, cut down to the
/// first `display_count` of them.
pub open spec fn gallery_of(entries: Seq<Seq<char>>, display_count: int) -> Seq<Seq<char>> {
    sort_desc(entries).take(vstd::math::min(display_count, entries.len() as int))
}

pub proof fn lemma_insert_desc_ensures(x: Seq<char>, s: Seq<Seq<char>>)
    requires
        sorted_desc(s),
    ensures
        insert_desc(x, s).len() == s.len() + 1,
        insert_desc(x, s).to_multiset() =~= s.to_multiset().insert(x),
        sorted_desc(insert_desc(x, s)),
    decreases s.len(),
{
    broadcast use vstd::seq_lib::group_to_multiset_ensures;
    broadcast use vstd::multiset::group_multiset_axioms;

    let r = insert_desc(x, s);
    if s.len() == 0 {
        assert(r =~= Seq::<Seq<char>>::empty().push(x));
    } else if lex_leq(s[0], x) {
        assert(r == seq![x] + s);
        assert(seq![x] =~= Seq::<Seq<char>>::empty().push(x));
        lemma_multiset_commutative(seq![x], s);
        assert(r.to_multiset() =~= s.to_multiset().insert(x));
        assert forall|i: int, j: int| 0 <= i < j < r.len() implies #[trigger] lex_leq(
            r[j],
            r[i],
        ) by {
            if i == 0 {
                if j == 1 {
                    assert(lex_leq(r[1], x));
                } else {
                    lemma_lex_leq_transitive(s[j - 1], s[0], x);
                }
            }
        }
    } else {
        let tail = s.drop_first();
        assert(sorted_desc(tail)) by {
            assert forall|i: int, j: int| 0 <= i < j < tail.len() implies #[trigger] lex_leq(
                tail[j],
                tail[i],
            ) by {
                assert(lex_leq(s[j + 1], s[i + 1]));
            }
        }
        lemma_insert_desc_ensures(x, tail);
        let rt = insert_desc(x, tail);
        assert(r == seq![s[0]] + rt);
        assert(seq![s[0]] =~= Seq::<Seq<char>>::empty().push(s[0]));
        lemma_multiset_commutative(seq![s[0]], rt);
        assert(s =~= seq![s[0]] + tail);
        lemma_multiset_commutative(seq![s[0]], tail);
        assert(r.to_multiset() =~= s.to_multiset().insert(x));
        lemma_lex_leq_total(x, s[0]);
        assert forall|i: int, j: int| 0 <= i < j < r.len() implies #[trigger] lex_leq(
            r[j],
            r[i],
        ) by {
            if i == 0 {
                let e = rt[j - 1];
                assert(rt.to_multiset().count(e) > 0);
                if e == x {
                    assert(lex_leq(e, s[0]));
                } else {
                    assert(tail.to_multiset().count(e) > 0);
                    assert(tail.contains(e));
                    let k = choose|k: int| 0 <= k < tail.len() && tail[k] == e;
                    assert(lex_leq(s[k + 1], s[0]));
                }
            } else {
                assert(lex_leq(rt[j - 1], rt[i - 1]));
            }
        }
    }
}

pub proof fn lemma_sort_desc_ensures(s: Seq<Seq<char>>)
    ensures
        sort_desc(s).len() == s.len(),
        sort_desc(s).to_multiset() =~= s.to_multiset(),
        sorted_desc(sort_desc(s)),
    decreases s.len(),
{
    broadcast use vstd::seq_lib::group_to_multiset_ensures;
    broadcast use vstd::multiset::group_multiset_axioms;

    if s.len() > 0 {
        let tail = s.drop_first();
        lemma_sort_desc_ensures(tail);
        lemma_insert_desc_ensures(s[0], sort_desc(tail));
        assert(s.remove(0) =~= tail);
        assert(tail.to_multiset() =~= s.to_multiset().remove(s[0]));
        assert(s.contains(s[0]));
        assert(s.to_multiset().count(s[0]) > 0);
        assert(s.to_multiset().remove(s[0]).insert(s[0]) =~= s.to_multiset());
        assert(sort_desc(s).to_multiset() =~= s.to_multiset());
    }
}

/// A listing of an empty directory is empty.
pub proof fn lemma_gallery_empty(display_count: int)
    requires
        display_count >= 0,
    ensures
        gallery_of(Seq::empty(), display_count) == Seq::<Seq<char>>::empty(),
{
    assert(gallery_of(Seq::empty(), display_count) =~= Seq::<Seq<char>>::empty());
}

/// The listing shows `min(display_count, total)` entries, all drawn
/// from the directory, in descending order.
pub proof fn lemma_gallery_shape(entries: Seq<Seq<char>>, display_count: int)
    requires
        display_count >= 0,
    ensures
        gallery_of(entries, display_count).len() == vstd::math::min(
            display_count,
            entries.len() as int,
        ),
        sorted_desc(gallery_of(entries, display_count)),
        forall|i: int|
            0 <= i < gallery_of(entries, display_count).len() ==> entries.contains(
                #[trigger] gallery_of(entries, display_count)[i],
            ),
{
    broadcast use vstd::seq_lib::group_to_multiset_ensures;
    broadcast use vstd::multiset::group_multiset_axioms;

    lemma_sort_desc_ensures(entries);
    let g = gallery_of(entries, display_count);
    let full = sort_desc(entries);
    assert forall|i: int, j: int| 0 <= i < j < g.len() implies #[trigger] lex_leq(g[j], g[i]) by {
        assert(lex_leq(full[j], full[i]));
    }
    assert forall|i: int| 0 <= i < g.len() implies entries.contains(#[trigger] g[i]) by {
        assert(full.contains(full[i]));
        assert(full.to_multiset().count(full[i]) > 0);
        assert(entries.to_multiset().count(full[i]) > 0);
    }
}

pub proof fn lemma_lex_leq_skip(a: Seq<char>, b: Seq<char>, i: int)
    requires
        0 <= i <= a.len(),
        i <= b.len(),
        forall|j: int| 0 <= j < i ==> a[j] == b[j],
    ensures
        lex_leq(a, b) == lex_leq(a.skip(i), b.skip(i)),
    decreases i,
{
    if i > 0 {
        lemma_lex_leq_skip(a.drop_first(), b.drop_first(), i - 1);
        assert(a.drop_first().skip(i - 1) =~= a.skip(i));
        assert(b.drop_first().skip(i - 1) =~= b.skip(i));
    } else {
        assert(a.skip(0) =~= a);
        assert(b.skip(0) =~= b);
    }
}

/// Compare two names in ascending lexicographic order of code points.
pub fn str_le(a: &str, b: &str) -> (r: bool)
    ensures
        r == lex_leq(a@, b@),
{
    let a_len = a.unicode_len();
    let b_len = b.unicode_len();
    let mut i: usize = 0;
    loop
        invariant
            i <= a_len,
            i <= b_len,
            a_len == a@.len(),
            b_len == b@.len(),
            forall|j: int| 0 <= j < i ==> a@[j] == b@[j],
        decreases a_len - i,
    {
        if i == a_len {
            proof {
                lemma_lex_leq_skip(a@, b@, i as int);
            }
            return true;
        }
        if i == b_len {
            proof {
                lemma_lex_leq_skip(a@, b@, i as int);
            }
            return false;
        }
        let ca = a.get_char(i);
        let cb = b.get_char(i);
        if ca != cb {
            proof {
                lemma_lex_leq_skip(a@, b@, i as int);
                assert(a@.skip(i as int)[0] == a@[i as int]);
                assert(b@.skip(i as int)[0] == b@[i as int]);
            }
            return (ca as u32) < (cb as u32);
        }
        i = i + 1;
    }
}

pub proof fn lemma_insert_desc_at(x: Seq<char>, s: Seq<Seq<char>>, p: int)
    requires
        0 <= p <= s.len(),
        forall|j: int| 0 <= j < p ==> !lex_leq(#[trigger] s[j], x),
        p < s.len() ==> lex_leq(s[p], x),
    ensures
        insert_desc(x, s) == s.take(p) + seq![x] + s.skip(p),
    decreases p,
{
    if p == 0 {
        if s.len() == 0 {
            assert(insert_desc(x, s) =~= s.take(0) + seq![x] + s.skip(0));
        } else {
            assert(s.take(0) + seq![x] + s.skip(0) =~= seq![x] + s);
        }
    } else {
        lemma_insert_desc_at(x, s.drop_first(), p - 1);
        assert(s.drop_first().take(p - 1) =~= s.take(p).drop_first());
        assert(s.drop_first().skip(p - 1) =~= s.skip(p));
        assert(insert_desc(x, s) =~= s.take(p) + seq![x] + s.skip(p));
    }
}

/// Sort the directory entries in descending lexicographic order.
pub fn sort_names(entries: &Vec<String>) -> (r: Vec<String>)
    ensures
        r.deep_view() == sort_desc(entries.deep_view()),
{
    let n = entries.len();
    let mut out: Vec<String> = Vec::new();
    let mut i: usize = n;
    while i > 0
        invariant
            i <= n,
            n == entries@.len(),
            out.deep_view() == sort_desc(entries.deep_view().skip(i as int)),
        decreases i,
    {
        i = i - 1;
        let x: String = (&entries[i]).clone();
        let ghost prior = out.deep_view();
        let mut p: usize = 0;
        let mut stop: bool = false;
        while !stop
            invariant
                p <= out@.len(),
                out.deep_view() == prior,
                x@ == entries.deep_view()[i as int],
                forall|j: int| 0 <= j < p ==> !lex_leq(#[trigger] prior[j], x@),
                stop ==> (p == prior.len() || lex_leq(prior[p as int], x@)),
            decreases prior.len() - p + (if stop { 0int } else { 1int }),
        {
            if p == out.len() {
                stop = true;
            } else if str_le(out[p].as_str(), x.as_str()) {
                stop = true;
            } else {
                p = p + 1;
            }
        }
        proof {
            lemma_insert_desc_at(x@, prior, p as int);
        }
        out.insert(p, x);
        proof {
            assert(out.deep_view() =~= prior.take(p as int) + seq![x@] + prior.skip(p as int));
            let rest = entries.deep_view().skip(i as int);
            assert(rest[0] == entries.deep_view()[i as int]);
            assert(rest.drop_first() =~= entries.deep_view().skip(i as int + 1));
            assert(out.deep_view() == sort_desc(rest));
        }
    }
    proof {
        assert(entries.deep_view().skip(0) =~= entries.deep_view());
    }
    out
}

/// Produce the gallery view: the given directory entries in descending
/// lexicographic order, truncated to the first `display_count`.
pub fn list(entries: &Vec<String>, display_count: usize) -> (r: Vec<String>)
    ensures
        r.deep_view() == gallery_of(entries.deep_view(), display_count as int),
{
    let mut sorted = sort_names(entries);
    proof {
        lemma_sort_desc_ensures(entries.deep_view());
    }
    sorted.truncate(display_count);
    proof {
        let full = sort_desc(entries.deep_view());
        let m = vstd::math::min(display_count as int, entries.deep_view().len() as int);
        assert(sorted.deep_view() =~= full.take(m));
    }
    sorted
}

/// With a display count at or above the total, the listing is the whole
/// directory in descending order: same names, same multiplicities, and
/// distinct directory entries stay distinct (no entry is shown twice).
pub proof fn lemma_gallery_all(entries: Seq<Seq<char>>, display_count: int)
    requires
        display_count >= entries.len(),
    ensures
        gallery_of(entries, display_count).len() == entries.len(),
        gallery_of(entries, display_count).to_multiset() == entries.to_multiset(),
        sorted_desc(gallery_of(entries, display_count)),
        entries.no_duplicates() ==> gallery_of(entries, display_count).no_duplicates(),
{
    broadcast use vstd::seq_lib::group_to_multiset_ensures;
    broadcast use vstd::multiset::group_multiset_axioms;

    lemma_sort_desc_ensures(entries);
    let g = gallery_of(entries, display_count);
    assert(g =~= sort_desc(entries));
    assert(g.to_multiset() =~= entries.to_multiset());
    lemma_gallery_shape(entries, display_count);
    if entries.no_duplicates() {
        entries.lemma_multiset_has_no_duplicates();
        g.lemma_multiset_has_no_duplicates_conv();
    }
}

} // verus!
