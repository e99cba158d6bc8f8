//! Mathematical model of a registry collection and of the batch operations
//! on it, together with the laws the operations obey.
//!
//! A collection is a map from entry names to values.  A mutation applies a
//! batch of upserts in caller order (so a repeated name ends at its last
//! value), then a batch of removals; a batch query resolves the requested
//! names in request order and keeps only the present ones.

use vstd::prelude::*;

verus! {

/// Apply a batch of (name, value) pairs in order: an existing name is
/// overwritten, a fresh one inserted, and of a repeated name the last
/// write wins.
pub open spec fn apply_upserts<V>(m: Map<Seq<char>, V>, entries: Seq<(Seq<char>, V)>) -> Map<
    Seq<char>,
    V,
>
    decreases entries.len(),
{
    if entries.len() == 0 {
        m
    } else {
        apply_upserts(m, entries.drop_last()).insert(entries.last().0, entries.last().1)
    }
}

/// Delete a batch of names in order; an absent name is a silent no-op.
pub open spec fn apply_removes<V>(m: Map<Seq<char>, V>, names: Seq<Seq<char>>) -> Map<
    Seq<char>,
    V,
>
    decreases names.len(),
{
    if names.len() == 0 {
        m
    } else {
        apply_removes(m, names.drop_last()).remove(names.last())
    }
}

/// Resolve a batch of names against a collection: the present ones, as
/// (name, value) pairs in request order; absent names are silently
/// omitted.
pub open spec fn resolve<V>(m: Map<Seq<char>, V>, names: Seq<Seq<char>>) -> Seq<(Seq<char>, V)>
    decreases names.len(),
{
    if names.len() == 0 {
        Seq::empty()
    } else {
        let rest = resolve(m, names.drop_last());
        if m.contains_key(names.last()) {
            rest.push((names.last(), m[names.last()]))
        } else {
            rest
        }
    }
}

/// Removing a batch of names is exactly erasing their set from the map's
/// domain.
pub proof fn lemma_removes_are_remove_keys<V>(m: Map<Seq<char>, V>, names: Seq<Seq<char>>)
    ensures
        apply_removes(m, names) == m.remove_keys(names.to_set()),
    decreases names.len(),
{
    if names.len() == 0 {
        assert(apply_removes(m, names) =~= m.remove_keys(names.to_set()));
    } else {
        let pre = names.drop_last();
        lemma_removes_are_remove_keys(m, pre);
        assert forall|x: Seq<char>| names.to_set().contains(x) implies pre.to_set().insert(
            names.last(),
        ).contains(x) by {
            let i = choose|i: int| 0 <= i < names.len() && names[i] == x;
            if i < names.len() - 1 {
                assert(pre[i] == x);
                assert(pre.contains(x));
            }
        }
        assert forall|x: Seq<char>|
            pre.to_set().insert(names.last()).contains(x) implies names.to_set().contains(x) by {
            if pre.to_set().contains(x) {
                let i = choose|i: int| 0 <= i < pre.len() && pre[i] == x;
                assert(names[i] == x);
            } else {
                assert(names[names.len() - 1] == x);
            }
            assert(names.contains(x));
        }
        assert(pre.to_set().insert(names.last()) =~= names.to_set());
        assert(m.remove_keys(pre.to_set()).remove(names.last()) =~= m.remove_keys(
            names.to_set(),
        ));
    }
}

/// Deletion is idempotent: removing the same batch of names twice leaves
/// the same collection as removing it once.
pub proof fn lemma_removes_idempotent<V>(m: Map<Seq<char>, V>, names: Seq<Seq<char>>)
    ensures
        apply_removes(apply_removes(m, names), names) == apply_removes(m, names),
{
    lemma_removes_are_remove_keys(m, names);
    lemma_removes_are_remove_keys(m.remove_keys(names.to_set()), names);
    assert(m.remove_keys(names.to_set()).remove_keys(names.to_set()) =~= m.remove_keys(
        names.to_set(),
    ));
}

/// A batch of one pair is a plain insertion.
pub proof fn lemma_single_upsert<V>(m: Map<Seq<char>, V>, n: Seq<char>, v: V)
    ensures
        apply_upserts(m, seq![(n, v)]) == m.insert(n, v),
{
    let e = seq![(n, v)];
    assert(e.drop_last() =~= Seq::<(Seq<char>, V)>::empty());
    assert(apply_upserts(m, e.drop_last()) == m);
    assert(e.last() == (n, v));
    assert(apply_upserts(m, e) =~= m.insert(n, v));
}

/// Upserting a name and then upserting it again leaves the last value:
/// last write wins across batches.
pub proof fn lemma_last_write_wins<V>(m: Map<Seq<char>, V>, n: Seq<char>, v1: V, v2: V)
    ensures
        apply_upserts(apply_upserts(m, seq![(n, v1)]), seq![(n, v2)]) == m.insert(n, v2),
{
    lemma_single_upsert(m, n, v1);
    lemma_single_upsert(m.insert(n, v1), n, v2);
    assert(m.insert(n, v1).insert(n, v2) =~= m.insert(n, v2));
}

/// A batch leaves every name it does not mention untouched; in particular
/// a never-inserted name stays absent.
pub proof fn lemma_upserts_frame<V>(m: Map<Seq<char>, V>, entries: Seq<(Seq<char>, V)>, n: Seq<
    char,
>)
    requires
        forall|i: int| 0 <= i < entries.len() ==> (#[trigger] entries[i]).0 != n,
    ensures
        apply_upserts(m, entries).contains_key(n) == m.contains_key(n),
        m.contains_key(n) ==> apply_upserts(m, entries)[n] == m[n],
    decreases entries.len(),
{
    if entries.len() > 0 {
        assert(entries[entries.len() - 1].0 != n);
        lemma_upserts_frame(m, entries.drop_last(), n);
    }
}

/// A name that stands in the removal batch is absent afterwards, whatever
/// the upsert batch before it did: the adds-before-removes tie-break.
pub proof fn lemma_add_then_remove_absent<V>(
    m: Map<Seq<char>, V>,
    to_add: Seq<(Seq<char>, V)>,
    to_remove: Seq<Seq<char>>,
    n: Seq<char>,
)
    requires
        to_remove.contains(n),
    ensures
        !apply_removes(apply_upserts(m, to_add), to_remove).contains_key(n),
{
    lemma_removes_are_remove_keys(apply_upserts(m, to_add), to_remove);
}

/// What a batch query returns: only pairs of present names carrying the
/// stored value, each pair a requested name, and every requested present
/// name reported.
pub proof fn lemma_resolve_characterized<V>(m: Map<Seq<char>, V>, names: Seq<Seq<char>>)
    ensures
        forall|j: int| 0 <= j < resolve(m, names).len() ==> m.contains_key(
            (#[trigger] resolve(m, names)[j]).0,
        ) && resolve(m, names)[j].1 == m[resolve(m, names)[j].0] && names.contains(
            resolve(m, names)[j].0,
        ),
        forall|i: int| 0 <= i < names.len() && m.contains_key(#[trigger] names[i]) ==> resolve(
            m,
            names,
        ).contains((names[i], m[names[i]])),
    decreases names.len(),
{
    if names.len() > 0 {
        let pre = names.drop_last();
        lemma_resolve_characterized(m, pre);
        let r = resolve(m, names);
        let rp = resolve(m, pre);
        assert forall|j: int| 0 <= j < rp.len() implies names.contains(rp[j].0) by {
            let i = choose|i: int| 0 <= i < pre.len() && pre[i] == rp[j].0;
            assert(names[i] == rp[j].0);
        }
        assert forall|i: int|
            0 <= i < names.len() && m.contains_key(#[trigger] names[i]) implies r.contains(
            (names[i], m[names[i]]),
        ) by {
            if i < names.len() - 1 {
                assert(pre[i] == names[i]);
                assert(rp.contains((names[i], m[names[i]])));
                let j = choose|j: int| 0 <= j < rp.len() && rp[j] == (names[i], m[names[i]]);
                assert(r[j] == (names[i], m[names[i]]));
            } else {
                assert(r.last() == (names[i], m[names[i]]));
            }
        }
    }
}

} // verus!
