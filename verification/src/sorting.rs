//! The order in which resources are written out: by name, as strings are
//! ordered, and with resources of one name in the order they had.

use vstd::prelude::*;
use vstd::utf8::encode_utf8;
use crate::model::{Crudable, resource_views};

verus! {

/// Whether `a` comes before `b`, or is `b`, in the order of byte strings: the
/// first byte in which they differ decides, and a string comes before those
/// it begins.
pub open spec fn bytes_le(a: Seq<u8>, b: Seq<u8>) -> bool
    decreases a.len(),
{
    if a.len() == 0 {
        true
    } else if b.len() == 0 {
        false
    } else if a[0] != b[0] {
        a[0] < b[0]
    } else {
        bytes_le(a.drop_first(), b.drop_first())
    }
}

/// The order of names: that of their bytes in UTF-8.
pub open spec fn name_le(a: Seq<char>, b: Seq<char>) -> bool {
    bytes_le(encode_utf8(a), encode_utf8(b))
}

/// Of two byte strings one comes before the other, or they are the same.
pub proof fn lemma_bytes_le_total(a: Seq<u8>, b: Seq<u8>)
    ensures
        bytes_le(a, b) || bytes_le(b, a),
    decreases a.len(),
{
    if a.len() > 0 && b.len() > 0 && a[0] == b[0] {
        lemma_bytes_le_total(a.drop_first(), b.drop_first());
    }
}

/// What comes before something that comes before a third comes before the
/// third.
pub proof fn lemma_bytes_le_transitive(a: Seq<u8>, b: Seq<u8>, c: Seq<u8>)
    requires
        bytes_le(a, b),
        bytes_le(b, c),
    ensures
        bytes_le(a, c),
    decreases a.len(),
{
    if a.len() > 0 && b.len() > 0 && c.len() > 0 && a[0] == b[0] && b[0] == c[0] {
        lemma_bytes_le_transitive(a.drop_first(), b.drop_first(), c.drop_first());
    }
}

/// Says whether `a` comes before `b`, or is `b`, in the order of strings.
pub fn string_le(a: &String, b: &String) -> (le: bool)
    ensures
        le == name_le(a@, b@),
{
    let x = a.as_str().as_bytes();
    let y = b.as_str().as_bytes();
    let mut i: usize = 0;
    assert(x@.skip(0) =~= x@ && y@.skip(0) =~= y@);
    while i < x.len() && i < y.len()
        invariant
            i <= x.len(),
            i <= y.len(),
            x@ == encode_utf8(a@),
            y@ == encode_utf8(b@),
            bytes_le(x@, y@) == bytes_le(x@.skip(i as int), y@.skip(i as int)),
        decreases x.len() - i,
    {
        proof {
            assert(x@.skip(i as int).drop_first() =~= x@.skip(i + 1));
            assert(y@.skip(i as int).drop_first() =~= y@.skip(i + 1));
            assert(x@.skip(i as int)[0] == x@[i as int]);
            assert(y@.skip(i as int)[0] == y@[i as int]);
        }
        if x[i] != y[i] {
            return x[i] < y[i];
        }
        i += 1;
    }
    x.len() <= y.len()
}

/// The test that a value of a resource passes when its name is `name`.
pub open spec fn has_name<R: Crudable>(name: Seq<char>) -> spec_fn(R::V) -> bool {
    |v: R::V| R::name_in(v) == name
}

/// Whether the resources stand in the order of their names.
pub open spec fn in_name_order<R: Crudable>(items: Seq<R::V>) -> bool {
    forall|i: int, j: int|
        0 <= i <= j < items.len() ==> name_le(
            R::name_in(#[trigger] items[i]),
            R::name_in(#[trigger] items[j]),
        )
}

/// A filter keeps nothing of a list in which nothing passes.
pub proof fn lemma_filter_of_none<A>(s: Seq<A>, pred: spec_fn(A) -> bool)
    requires
        forall|i: int| 0 <= i < s.len() ==> !pred(#[trigger] s[i]),
    ensures
        s.filter(pred) == Seq::<A>::empty(),
    decreases s.len(),
{
    reveal(Seq::filter);
    if s.len() > 0 {
        let front = s.drop_last();
        assert forall|i: int| 0 <= i < front.len() implies !pred(#[trigger] front[i]) by {
            assert(front[i] == s[i]);
        }
        lemma_filter_of_none(front, pred);
        assert(!pred(s[s.len() - 1]));
    }
}

/// What a filter keeps of a list into which one more element was put.
pub proof fn lemma_filter_of_insert<A>(s: Seq<A>, at: int, a: A, pred: spec_fn(A) -> bool)
    requires
        0 <= at <= s.len(),
    ensures
        s.filter(pred) == s.take(at).filter(pred) + s.skip(at).filter(pred),
        s.insert(at, a).filter(pred) == if pred(a) {
            s.take(at).filter(pred).push(a) + s.skip(at).filter(pred)
        } else {
            s.filter(pred)
        },
{
    reveal(Seq::filter);
    let front = s.take(at);
    let back = s.skip(at);
    assert(s =~= front + back);
    Seq::filter_distributes_over_add(front, back, pred);
    assert(s.insert(at, a) =~= front.push(a) + back);
    Seq::filter_distributes_over_add(front.push(a), back, pred);
    assert(front.push(a).drop_last() =~= front);
}

/// The resources in the order of their names, those of one name in the order
/// in which they stood: for every name, the resources of that name are the
/// same, in the same order, before and after.
pub fn sorted_by_name<R: Crudable>(items: &Vec<R>) -> (sorted: Vec<R>)
    ensures
        sorted.len() == items.len(),
        in_name_order::<R>(resource_views(sorted@)),
        forall|name: Seq<char>|
            #[trigger] resource_views(sorted@).filter(has_name::<R>(name)) == resource_views(
                items@,
            ).filter(has_name::<R>(name)),
{
    let ghost views = resource_views(items@);
    let mut sorted: Vec<R> = Vec::new();
    let mut i: usize = 0;
    proof {
        assert(resource_views(sorted@) =~= Seq::<R::V>::empty());
        assert(views.take(0) =~= Seq::<R::V>::empty());
    }
    while i < items.len()
        invariant
            i <= items.len(),
            views == resource_views(items@),
            sorted.len() == i,
            in_name_order::<R>(resource_views(sorted@)),
            forall|name: Seq<char>|
                #[trigger] resource_views(sorted@).filter(has_name::<R>(name)) == views.take(
                    i as int,
                ).filter(has_name::<R>(name)),
        decreases items.len() - i,
    {
        let item = items[i].duplicate();
        let item_name = item.name();
        let ghost before = resource_views(sorted@);
        let ghost added = items@[i as int]@;
        assert(views[i as int] == added);

        // The place of the item: behind everything that does not come after it.
        let mut at: usize = 0;
        while at < sorted.len() && string_le(&sorted[at].name(), &item_name)
            invariant
                at <= sorted.len(),
                before == resource_views(sorted@),
                item_name@ == R::name_in(added),
                forall|j: int|
                    0 <= j < at ==> name_le(R::name_in(#[trigger] before[j]), R::name_in(added)),
            decreases sorted.len() - at,
        {
            at += 1;
        }
        sorted.insert(at, item);

        proof {
            let after = resource_views(sorted@);
            let wanted = R::name_in(added);
            assert(after =~= before.insert(at as int, added));
            assert forall|k: int, l: int| 0 <= k <= l < after.len() implies name_le(
                R::name_in(#[trigger] after[k]),
                R::name_in(#[trigger] after[l]),
            ) by {
                let from = |n: int| if n < at { n } else { n - 1 };
                if k == at && l == at {
                    lemma_bytes_le_total(encode_utf8(wanted), encode_utf8(wanted));
                } else if k == at {
                    // Everything from the place on comes after the item.
                    assert(after[l] == before[l - 1]);
                    assert(name_le(R::name_in(before[at as int]), R::name_in(before[l - 1])));
                    lemma_bytes_le_total(
                        encode_utf8(wanted),
                        encode_utf8(R::name_in(before[at as int])),
                    );
                    lemma_bytes_le_transitive(
                        encode_utf8(wanted),
                        encode_utf8(R::name_in(before[at as int])),
                        encode_utf8(R::name_in(before[l - 1])),
                    );
                } else if l == at {
                    assert(after[k] == before[k]);
                } else {
                    assert(after[k] == before[from(k)]);
                    assert(after[l] == before[from(l)]);
                }
            }
            assert forall|name: Seq<char>|
                #[trigger] after.filter(has_name::<R>(name)) == views.take(i + 1).filter(
                    has_name::<R>(name),
                ) by {
                let pred = has_name::<R>(name);
                reveal(Seq::filter);
                assert(views.take(i + 1).drop_last() =~= views.take(i as int));
                assert(views.take(i + 1).last() == added);
                assert(before.filter(pred) == views.take(i as int).filter(pred));
                lemma_filter_of_insert(before, at as int, added, pred);
                if pred(added) {
                    let back = before.skip(at as int);
                    assert forall|n: int| 0 <= n < back.len() implies !pred(
                        #[trigger] back[n],
                    ) by {
                        assert(back[n] == before[at + n]);
                        assert(name_le(R::name_in(before[at as int]), R::name_in(before[at + n])));
                    }
                    lemma_filter_of_none(back, pred);
                    assert(before.take(at as int).filter(pred).push(added) + Seq::<
                        R::V,
                    >::empty() =~= before.take(at as int).filter(pred).push(added));
                    assert(before.take(at as int).filter(pred) + Seq::<R::V>::empty()
                        =~= before.take(at as int).filter(pred));
                }
            }
        }
        i += 1;
    }
    assert(views.take(items.len() as int) =~= views);
    sorted
}

/// Sorting loses nothing and adds nothing: where two lists hold, for every
/// name, the same resources of that name, a resource is in the one exactly if
/// it is in the other.
pub proof fn law_sorting_keeps_the_resources<R: Crudable>(
    before: Seq<R::V>,
    after: Seq<R::V>,
    v: R::V,
)
    requires
        forall|name: Seq<char>|
            #[trigger] after.filter(has_name::<R>(name)) == before.filter(has_name::<R>(name)),
    ensures
        after.contains(v) <==> before.contains(v),
{
    let pred = has_name::<R>(R::name_in(v));
    assert(after.filter(pred) == before.filter(pred));
    if before.contains(v) {
        let at = choose|at: int| 0 <= at < before.len() && before[at] == v;
        before.lemma_filter_contains(pred, at);
        after.lemma_filter_contains_rev(pred, v);
    }
    if after.contains(v) {
        let at = choose|at: int| 0 <= at < after.len() && after[at] == v;
        after.lemma_filter_contains(pred, at);
        before.lemma_filter_contains_rev(pred, v);
    }
}

} // verus!
