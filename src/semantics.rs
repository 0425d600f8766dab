use vstd::prelude::*;


use crate::storable::Storable;

verus! {

/// The contents after applying a run of inserts, in order, to `m`: the
/// model that `insert` on both tables follows step by step.
pub open spec fn spec_insert_all(
    m: Map<Seq<u8>, Seq<u8>>,
    ops: Seq<(Seq<u8>, Seq<u8>)>,
) -> Map<Seq<u8>, Seq<u8>>
    decreases ops.len(),
{
    if ops.len() == 0 {
        m
    } else {
        spec_insert_all(m, ops.drop_last()).insert(ops.last().0, ops.last().1)
    }
}

/// After any run of inserts, a key maps to the value of its last insert:
/// `get` finds `v` after `insert(k, v)` until a later insert of the same key
/// replaces it.
pub proof fn lemma_get_sees_last_insert(
    m: Map<Seq<u8>, Seq<u8>>,
    ops: Seq<(Seq<u8>, Seq<u8>)>,
    i: int,
)
    requires
        0 <= i < ops.len(),
        forall|j: int| i < j < ops.len() ==> (#[trigger] ops[j]).0 != ops[i].0,
    ensures
        spec_insert_all(m, ops).contains_key(ops[i].0),
        spec_insert_all(m, ops)[ops[i].0] == ops[i].1,
    decreases ops.len(),
{
    if i < ops.len() - 1 {
        let prefix = ops.drop_last();
        assert forall|j: int| i < j < prefix.len() implies (#[trigger] prefix[j]).0 != prefix[i].0 by {
            assert(prefix[j] == ops[j]);
        }
        lemma_get_sees_last_insert(m, prefix, i);
        assert(ops[ops.len() - 1].0 != ops[i].0);
    }
}

/// A second insert of a present key displaces exactly the value the first
/// one stored, and `get` then sees the new value.
pub proof fn lemma_replace_displaces(m: Map<Seq<u8>, Seq<u8>>, k: Seq<u8>, v: Seq<u8>, v2: Seq<u8>)
    ensures
        m.insert(k, v).contains_key(k),
        m.insert(k, v)[k] == v,
        m.insert(k, v).insert(k, v2)[k] == v2,
{
}

/// A key that no insert names is absent afterwards if it was absent before.
pub proof fn lemma_absent_key(m: Map<Seq<u8>, Seq<u8>>, ops: Seq<(Seq<u8>, Seq<u8>)>, k: Seq<u8>)
    requires
        !m.contains_key(k),
        forall|j: int| 0 <= j < ops.len() ==> (#[trigger] ops[j]).0 != k,
    ensures
        !spec_insert_all(m, ops).contains_key(k),
    decreases ops.len(),
{
    if ops.len() > 0 {
        let prefix = ops.drop_last();
        assert forall|j: int| 0 <= j < prefix.len() implies (#[trigger] prefix[j]).0 != k by {
            assert(prefix[j] == ops[j]);
        }
        lemma_absent_key(m, prefix, k);
        assert(ops[ops.len() - 1].0 != k);
    }
}

/// Inserts of `n` distinct keys into an empty table leave exactly `n`
/// entries.
pub proof fn lemma_distinct_inserts_len(ops: Seq<(Seq<u8>, Seq<u8>)>)
    requires
        forall|i: int, j: int| 0 <= i < j < ops.len() ==> (#[trigger] ops[i]).0 != (#[trigger] ops[j]).0,
    ensures
        spec_insert_all(Map::empty(), ops).dom().finite(),
        spec_insert_all(Map::empty(), ops).len() == ops.len(),
    decreases ops.len(),
{
    if ops.len() > 0 {
        let prefix = ops.drop_last();
        assert forall|i: int, j: int| 0 <= i < j < prefix.len() implies (#[trigger] prefix[i]).0 != (
        #[trigger] prefix[j]).0 by {
            assert(prefix[i] == ops[i] && prefix[j] == ops[j]);
        }
        lemma_distinct_inserts_len(prefix);
        assert forall|j: int| 0 <= j < prefix.len() implies (#[trigger] prefix[j]).0 != ops.last().0 by {
            assert(prefix[j] == ops[j]);
        }
        lemma_absent_key(Map::empty(), prefix, ops.last().0);
    }
}

/// Inserting a key that is already present never adds an entry.
pub proof fn lemma_reinsert_keeps_len(m: Map<Seq<u8>, Seq<u8>>, k: Seq<u8>, v: Seq<u8>)
    requires
        m.dom().finite(),
        m.contains_key(k),
    ensures
        m.insert(k, v).len() == m.len(),
{
    assert(m.insert(k, v).dom() =~= m.dom());
}

/// A value read back from a cell holding the bytes of `written` is
/// `written`, up to its view.
pub proof fn lemma_round_trip<T: Storable>(written: T, read: T)
    requires
        read.image() == written.image(),
    ensures
        read@ == written@,
{
    T::lemma_image_determines_view(&read, &written);
}

} // verus!
