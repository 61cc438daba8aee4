//! Facts about filtered, mapped and flattened sequences: which elements such
//! a sequence holds, and when it holds none of them twice.

use vstd::prelude::*;
use vstd::seq_lib::*;

verus! {

/// A filtered sequence holds the elements of the sequence that pass the test.
pub proof fn lemma_filter_holds<A>(s: Seq<A>, pred: spec_fn(A) -> bool, a: A)
    ensures
        s.filter(pred).contains(a) <==> s.contains(a) && pred(a),
{
    broadcast use group_filter_ensures;

    if s.filter(pred).contains(a) {
        s.lemma_filter_contains_rev(pred, a);
        let i = choose|i: int| 0 <= i < s.filter(pred).len() && s.filter(pred)[i] == a;
        assert(pred(s.filter(pred)[i]));
    }
    if s.contains(a) && pred(a) {
        let i = choose|i: int| 0 <= i < s.len() && s[i] == a;
        assert(s.filter(pred).contains(s[i]));
    }
}

/// Filtering a sequence without duplicates leaves one without duplicates.
pub proof fn lemma_filter_no_duplicates<A>(s: Seq<A>, pred: spec_fn(A) -> bool)
    requires
        s.no_duplicates(),
    ensures
        s.filter(pred).no_duplicates(),
    decreases s.len(),
{
    reveal(Seq::filter);
    if s.len() > 0 {
        let init = s.drop_last();
        lemma_filter_no_duplicates(init, pred);
        if pred(s.last()) {
            if init.filter(pred).contains(s.last()) {
                init.lemma_filter_contains_rev(pred, s.last());
                let i = choose|i: int| 0 <= i < init.len() && init[i] == s.last();
                assert(s[i] == s[s.len() - 1]);
            }
            lemma_push_no_duplicates(init.filter(pred), s.last());
        }
    }
}

/// A sequence without duplicates stays so when a new element is added.
pub proof fn lemma_push_no_duplicates<A>(s: Seq<A>, a: A)
    requires
        s.no_duplicates(),
        !s.contains(a),
    ensures
        s.push(a).no_duplicates(),
{
    let t = s.push(a);
    assert forall|i: int, j: int| 0 <= i < t.len() && 0 <= j < t.len() && i != j implies t[i]
        != t[j] by {
        if i < s.len() && j < s.len() {
        } else if i < s.len() {
            assert(s.contains(s[i]));
        } else {
            assert(s.contains(s[j]));
        }
    }
}

/// `filter_map` holds the values that the function gives for the elements
/// of the sequence.
pub proof fn lemma_filter_map_holds<A, B>(s: Seq<A>, f: spec_fn(A) -> Option<B>, b: B)
    ensures
        s.filter_map(f).contains(b) <==> exists|i: int| 0 <= i < s.len() && f(#[trigger] s[i]) == Some(b),
    decreases s.len(),
{
    broadcast use group_seq_properties;

    if s.len() > 0 {
        let init = s.drop_last();
        lemma_filter_map_holds(init, f, b);
        if s.filter_map(f).contains(b) {
            if f(s.last()) == Some(b) {
                assert(f(s[s.len() - 1]) == Some(b));
            } else {
                assert(init.filter_map(f).contains(b));
                let i = choose|i: int| 0 <= i < init.len() && f(#[trigger] init[i]) == Some(b);
                assert(f(s[i]) == Some(b));
            }
        }
        if exists|i: int| 0 <= i < s.len() && f(#[trigger] s[i]) == Some(b) {
            let i = choose|i: int| 0 <= i < s.len() && f(#[trigger] s[i]) == Some(b);
            if i < s.len() - 1 {
                assert(f(init[i]) == Some(b));
                assert(init.filter_map(f).contains(b));
            } else {
                assert(seq![b].contains(b)) by {
                    assert(seq![b][0] == b);
                }
            }
        }
    }
}

/// Where the function gives no value twice, `filter_map` of a sequence
/// without duplicates has none.
pub proof fn lemma_filter_map_no_duplicates<A, B>(s: Seq<A>, f: spec_fn(A) -> Option<B>)
    requires
        s.no_duplicates(),
        forall|i: int, j: int|
            0 <= i < s.len() && 0 <= j < s.len() && i != j && f(#[trigger] s[i]) is Some ==> f(
                s[i],
            ) != f(#[trigger] s[j]),
    ensures
        s.filter_map(f).no_duplicates(),
    decreases s.len(),
{
    if s.len() > 0 {
        let init = s.drop_last();
        assert forall|i: int, j: int|
            0 <= i < init.len() && 0 <= j < init.len() && i != j && f(
                #[trigger] init[i],
            ) is Some implies f(init[i]) != f(#[trigger] init[j]) by {
            assert(init[i] == s[i] && init[j] == s[j]);
        }
        lemma_filter_map_no_duplicates(init, f);
        match f(s.last()) {
            Some(b) => {
                lemma_filter_map_holds(init, f, b);
                if init.filter_map(f).contains(b) {
                    let i = choose|i: int| 0 <= i < init.len() && f(#[trigger] init[i]) == Some(b);
                    assert(f(s[i]) == f(s[s.len() - 1]));
                }
                lemma_push_no_duplicates(init.filter_map(f), b);
                assert(init.filter_map(f) + seq![b] =~= init.filter_map(f).push(b));
            },
            None => {},
        }
    }
}

/// A flattened map holds the elements of the sequences that the function
/// gives for the elements of the sequence.
pub proof fn lemma_flat_map_holds<A, B>(s: Seq<A>, f: spec_fn(A) -> Seq<B>, b: B)
    ensures
        s.flat_map(f).contains(b) <==> exists|i: int| 0 <= i < s.len() && f(#[trigger] s[i]).contains(b),
    decreases s.len(),
{
    broadcast use group_seq_properties;

    if s.len() == 0 {
        assert(s.map_values(f) =~= Seq::<Seq<B>>::empty());
    } else {
        let init = s.drop_last();
        lemma_flat_map_holds(init, f, b);
        assert(s =~= init.push(s.last()));
        init.lemma_flat_map_push(f, s.last());
        if s.flat_map(f).contains(b) {
            if f(s.last()).contains(b) {
                assert(f(s[s.len() - 1]).contains(b));
            } else {
                let i = choose|i: int| 0 <= i < init.len() && f(#[trigger] init[i]).contains(b);
                assert(f(s[i]).contains(b));
            }
        }
        if exists|i: int| 0 <= i < s.len() && f(#[trigger] s[i]).contains(b) {
            let i = choose|i: int| 0 <= i < s.len() && f(#[trigger] s[i]).contains(b);
            if i < s.len() - 1 {
                assert(f(init[i]).contains(b));
            }
        }
    }
}

/// A flattened map has no duplicates where each of the sequences has none
/// and no two of them share an element.
pub proof fn lemma_flat_map_no_duplicates<A, B>(s: Seq<A>, f: spec_fn(A) -> Seq<B>)
    requires
        forall|i: int| 0 <= i < s.len() ==> f(#[trigger] s[i]).no_duplicates(),
        forall|i: int, j: int, b: B|
            0 <= i < s.len() && 0 <= j < s.len() && i != j && #[trigger] f(s[i]).contains(b)
                ==> !#[trigger] f(s[j]).contains(b),
    ensures
        s.flat_map(f).no_duplicates(),
    decreases s.len(),
{
    broadcast use group_seq_properties;

    if s.len() == 0 {
        assert(s.map_values(f) =~= Seq::<Seq<B>>::empty());
    } else {
        let init = s.drop_last();
        let last = s.last();
        assert forall|i: int| 0 <= i < init.len() implies f(#[trigger] init[i]).no_duplicates() by {
            assert(init[i] == s[i]);
        }
        assert forall|i: int, j: int, b: B|
            0 <= i < init.len() && 0 <= j < init.len() && i != j && #[trigger] f(init[i]).contains(
                b,
            ) implies !#[trigger] f(init[j]).contains(b) by {
            assert(init[i] == s[i] && init[j] == s[j]);
        }
        lemma_flat_map_no_duplicates(init, f);
        assert(s =~= init.push(last));
        init.lemma_flat_map_push(f, last);
        let a = init.flat_map(f);
        let c = f(last);
        assert(c.no_duplicates()) by {
            assert(f(s[s.len() - 1]).no_duplicates());
        }
        assert forall|i: int, j: int| 0 <= i < a.len() && 0 <= j < c.len() implies a[i] != c[j] by {
            if a[i] == c[j] {
                let b = a[i];
                lemma_flat_map_holds(init, f, b);
                assert(a.contains(b));
                let k = choose|k: int| 0 <= k < init.len() && f(#[trigger] init[k]).contains(b);
                assert(f(s[k]).contains(b));
                assert(c.contains(b));
                assert(f(s[s.len() - 1]).contains(b));
            }
        }
        lemma_no_dup_in_concat(a, c);
    }
}

} // verus!
