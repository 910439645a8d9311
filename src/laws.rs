//! Laws of the registry operations, stated over the models that the
//! operations' contracts use.
use vstd::prelude::*;

use crate::model::{has_fw_image, update_outcome, delete_outcome, ComponentSpecView, State};
use crate::registry::{after_delete, after_update, fetch_model};
use crate::state::update_results;

verus! {

/// One mutation of the registry, as the batch operations apply it per item.
pub enum Mutation {
    Update(ComponentSpecView),
    Delete(Seq<char>),
}

/// The registry after applying the mutations in order.
pub open spec fn replay(
    m: Map<Seq<char>, ComponentSpecView>,
    ops: Seq<Mutation>,
) -> Map<Seq<char>, ComponentSpecView>
    decreases ops.len(),
{
    if ops.len() == 0 {
        m
    } else {
        let before = replay(m, ops.drop_last());
        match ops.last() {
            Mutation::Update(c) => after_update(before, c),
            Mutation::Delete(n) => after_delete(before, n),
        }
    }
}

/// The component of the last accepted update of the name, unless a later
/// delete of the name followed it.
pub open spec fn last_accepted(ops: Seq<Mutation>, n: Seq<char>) -> Option<ComponentSpecView>
    decreases ops.len(),
{
    if ops.len() == 0 {
        None
    } else {
        match ops.last() {
            Mutation::Update(c) => if c.name == n && has_fw_image(c) {
                Some(c)
            } else {
                last_accepted(ops.drop_last(), n)
            },
            Mutation::Delete(d) => if d == n {
                None
            } else {
                last_accepted(ops.drop_last(), n)
            },
        }
    }
}

/// After any sequence of updates and deletes on an empty registry, fetching
/// a name gives the component of its last accepted update, or nothing when
/// there was none or a delete of the name came after it.
pub proof fn lemma_fetch_after_mutations(ops: Seq<Mutation>, reference: ComponentSpecView)
    ensures
        fetch_model(replay(Map::empty(), ops), seq![reference]) == match last_accepted(ops, reference.name) {
            Some(c) => seq![c],
            None => Seq::<ComponentSpecView>::empty(),
        },
{
    let m = replay(Map::empty(), ops);
    lemma_replay_entry(ops, reference.name);
    assert(seq![reference].drop_last() =~= Seq::<ComponentSpecView>::empty());
    assert(fetch_model(m, Seq::<ComponentSpecView>::empty()) == Seq::<ComponentSpecView>::empty());
    assert(seq![reference].last() == reference);
    if m.contains_key(reference.name) {
        assert(Seq::<ComponentSpecView>::empty().push(m[reference.name]) =~= seq![m[reference.name]]);
    }
}

proof fn lemma_replay_entry(ops: Seq<Mutation>, n: Seq<char>)
    ensures
        match last_accepted(ops, n) {
            Some(c) => replay(Map::empty(), ops).contains_key(n) && replay(Map::empty(), ops)[n] == c,
            None => !replay(Map::empty(), ops).contains_key(n),
        },
    decreases ops.len(),
{
    if ops.len() > 0 {
        lemma_replay_entry(ops.drop_last(), n);
    }
}

/// An update without a firmware image locator leaves the registry as it was
/// and is reported as InvalidArgument.
pub proof fn lemma_update_without_fw_image(m: Map<Seq<char>, ComponentSpecView>, c: ComponentSpecView)
    requires
        !has_fw_image(c),
    ensures
        after_update(m, c) == m,
        update_outcome(c, true).status == State::InvalidArgument,
{
}

/// Deleting a name that the registry does not hold leaves it as it was and
/// is reported as Deleted.
pub proof fn lemma_delete_absent(m: Map<Seq<char>, ComponentSpecView>, n: Seq<char>)
    requires
        !m.contains_key(n),
    ensures
        after_delete(m, n) == m,
        delete_outcome(true).status == State::Deleted,
{
    assert(m.remove(n) =~= m);
}

/// In a batch of an invalid item and a valid one with another name, both
/// results are reported, each as if alone: the invalid item is
/// InvalidArgument whatever happens to the lock, the valid one is OK when it
/// obtained exclusive access, and only the valid item reaches the registry.
pub proof fn lemma_mixed_batch(
    m: Map<Seq<char>, ComponentSpecView>,
    invalid: ComponentSpecView,
    valid: ComponentSpecView,
    acquired: Seq<bool>,
)
    requires
        acquired.len() == 2,
        !has_fw_image(invalid),
        has_fw_image(valid),
        invalid.name != valid.name,
        !m.contains_key(invalid.name),
    ensures
        ({
            let results = update_results(seq![invalid, valid], acquired);
            &&& results.len() == 2
            &&& results.contains_key(invalid.name)
            &&& results[invalid.name].status == State::InvalidArgument
            &&& results.contains_key(valid.name)
            &&& results[valid.name] == update_outcome(valid, acquired[1])
            &&& (acquired[1] ==> results[valid.name].status == State::OK)
        }),
        ({
            let after = after_update(after_update(m, invalid), valid);
            &&& after.contains_key(valid.name)
            &&& after[valid.name] == valid
            &&& !after.contains_key(invalid.name)
        }),
{
    let s = seq![invalid, valid];
    let a = acquired;
    assert(s.drop_last() =~= seq![invalid]);
    assert(seq![invalid].drop_last() =~= Seq::<ComponentSpecView>::empty());
    assert(update_results(Seq::<ComponentSpecView>::empty(), a) == Map::<Seq<char>, crate::model::ComponentResultView>::empty());
    let one = Map::<Seq<char>, crate::model::ComponentResultView>::empty().insert(invalid.name, update_outcome(invalid, a[0]));
    assert(update_results(seq![invalid], a) == one);
    assert(s.last() == valid);
    let two = one.insert(valid.name, update_outcome(valid, a[1]));
    assert(two.dom() =~= set![invalid.name, valid.name]);
    assert(set![invalid.name, valid.name].len() == 2) by {
        assert(set![invalid.name].len() == 1);
    }
}

/// Fetching a component right after its accepted update gives it back.
pub proof fn lemma_update_then_fetch(m: Map<Seq<char>, ComponentSpecView>, c: ComponentSpecView)
    requires
        has_fw_image(c),
    ensures
        fetch_model(after_update(m, c), seq![c]) == seq![c],
{
    let m1 = after_update(m, c);
    assert(seq![c].drop_last() =~= Seq::<ComponentSpecView>::empty());
    assert(fetch_model(m1, Seq::<ComponentSpecView>::empty()) == Seq::<ComponentSpecView>::empty());
    assert(seq![c].last() == c);
    assert(m1.contains_key(c.name) && m1[c.name] == c);
    assert(Seq::<ComponentSpecView>::empty().push(c) =~= seq![c]);
}

/// The component is the entry of the registry under the name of one of the
/// references.
pub open spec fn entry_of_some_reference(
    m: Map<Seq<char>, ComponentSpecView>,
    refs: Seq<ComponentSpecView>,
    x: ComponentSpecView,
) -> bool {
    exists|j: int| 0 <= j < refs.len() && m.contains_key(#[trigger] refs[j].name) && x == m[refs[j].name]
}

/// Every fetched component is an entry of the registry, stored under the
/// name of a reference.
pub proof fn lemma_fetched_are_entries(m: Map<Seq<char>, ComponentSpecView>, refs: Seq<ComponentSpecView>)
    ensures
        forall|i: int| 0 <= i < fetch_model(m, refs).len() ==> entry_of_some_reference(m, refs, #[trigger] fetch_model(m, refs)[i]),
    decreases refs.len(),
{
    if refs.len() > 0 {
        let pre = refs.drop_last();
        lemma_fetched_are_entries(m, pre);
        let r = fetch_model(m, refs);
        let rest = fetch_model(m, pre);
        assert forall|i: int| 0 <= i < r.len() implies entry_of_some_reference(m, refs, #[trigger] r[i]) by {
            if i < rest.len() {
                assert(entry_of_some_reference(m, pre, rest[i]));
                let j = choose|j: int| 0 <= j < pre.len() && m.contains_key(#[trigger] pre[j].name) && rest[i] == m[pre[j].name];
                assert(refs[j] == pre[j]);
                assert(r[i] == rest[i]);
            } else {
                let n = refs.last().name;
                assert(refs[refs.len() - 1].name == n);
            }
        }
    }
}

} // verus!
