//! The shared deployment state: the registry behind a reader-writer lock,
//! with the three batch operations.
use vstd::prelude::*;

use std::sync::{RwLock, RwLockReadGuard, RwLockWriteGuard};

use symphony::models::DeploymentSpec;

use crate::model::{
    delete_outcome, update_outcome, views, ComponentResultSpec, ComponentResultView,
    ComponentSpec, ComponentSpecView, State,
};
use crate::registry::{after_delete, after_update, fetch_model, valid_registry, Registry};
use crate::results::BatchResult;

verus! {

#[verifier::external_type_specification]
#[verifier::external_body]
#[verifier::reject_recursive_types(T)]
pub struct ExRwLock<T: ?Sized>(std::sync::RwLock<T>);

#[verifier::external_type_specification]
#[verifier::external_body]
#[verifier::reject_recursive_types(T)]
pub struct ExRwLockReadGuard<'a, T: ?Sized>(std::sync::RwLockReadGuard<'a, T>);

#[verifier::external_type_specification]
#[verifier::external_body]
#[verifier::reject_recursive_types(T)]
pub struct ExRwLockWriteGuard<'a, T: ?Sized + 'a>(std::sync::RwLockWriteGuard<'a, T>);

/// The results of a batch of updates, item by item; `acquired[i]` tells
/// whether exclusive access was obtained for item `i`.
pub open spec fn update_results(
    specs: Seq<ComponentSpecView>,
    acquired: Seq<bool>,
) -> Map<Seq<char>, ComponentResultView>
    decreases specs.len(),
{
    if specs.len() == 0 {
        Map::empty()
    } else {
        update_results(specs.drop_last(), acquired).insert(
            specs.last().name,
            update_outcome(specs.last(), acquired[specs.len() - 1]),
        )
    }
}

/// The results of a batch of deletes, item by item; `acquired[i]` tells
/// whether exclusive access was obtained for item `i`.
pub open spec fn delete_results(
    specs: Seq<ComponentSpecView>,
    acquired: Seq<bool>,
) -> Map<Seq<char>, ComponentResultView>
    decreases specs.len(),
{
    if specs.len() == 0 {
        Map::empty()
    } else {
        delete_results(specs.drop_last(), acquired).insert(
            specs.last().name,
            delete_outcome(acquired[specs.len() - 1]),
        )
    }
}

/// Nothing is fetched from an empty registry.
pub proof fn lemma_fetch_from_empty(refs: Seq<ComponentSpecView>)
    ensures
        fetch_model(Map::empty(), refs) == Seq::<ComponentSpecView>::empty(),
    decreases refs.len(),
{
    if refs.len() > 0 {
        lemma_fetch_from_empty(refs.drop_last());
    }
}

/// Relies on `RwLock::new`, which wraps the registry in a fresh lock.
#[verifier::external_body]
fn new_lock(registry: Registry) -> RwLock<Registry> {
    RwLock::new(registry)
}

/// Relies on `RwLock::read`, which fails only on a poisoned lock.
#[verifier::external_body]
fn read_guard<'a>(lock: &'a RwLock<Registry>) -> Option<RwLockReadGuard<'a, Registry>> {
    lock.read().ok()
}

/// Relies on `RwLockReadGuard`'s `Deref`: the registry that the guard holds.
#[verifier::external_body]
fn guard_ref<'a, 'b>(guard: &'b RwLockReadGuard<'a, Registry>) -> &'b Registry {
    &**guard
}

/// Relies on `RwLock::write`, which fails only on a poisoned lock.
#[verifier::external_body]
fn write_guard<'a>(lock: &'a RwLock<Registry>) -> Option<RwLockWriteGuard<'a, Registry>> {
    lock.write().ok()
}

/// Relies on `RwLockWriteGuard`'s `DerefMut`: the registry that the guard
/// holds, for exclusive use while the guard lives.
#[verifier::external_body]
fn guard_mut<'a, 'b>(guard: &'b mut RwLockWriteGuard<'a, Registry>) -> &'b mut Registry {
    &mut **guard
}

/// What a read of the registry answers for the references: the lookup of
/// each reference when the registry could be read, nothing when it could not.
pub fn status_from_read(registry: Option<&Registry>, references: &Vec<ComponentSpec>) -> (r: Vec<ComponentSpec>)
    ensures
        match registry {
            Some(reg) => views(r@) == fetch_model(reg@, views(references@)) && valid_registry(reg@),
            None => r@.len() == 0,
        },
{
    match registry {
        Some(reg) => reg.fetch(references),
        None => Vec::new(),
    }
}

/// One update item, under exclusive access to the registry: a component
/// with a firmware image locator replaces the entry of its name and is OK;
/// one without changes nothing and is InvalidArgument.
pub fn update_item(registry: &mut Registry, spec: &ComponentSpec) -> (r: ComponentResultSpec)
    ensures
        r@ == update_outcome(spec@, true),
        final(registry)@ == after_update(old(registry)@, spec@),
{
    proof {
        reveal_strlit("component updated successfully");
        reveal_strlit("Firmware ComponentSpec must contain fw-image property");
    }
    if registry.apply_update(spec) {
        ComponentResultSpec::new(State::OK, "component updated successfully")
    } else {
        ComponentResultSpec::new(State::InvalidArgument, "Firmware ComponentSpec must contain fw-image property")
    }
}

/// One delete item, under exclusive access to the registry: the entry of
/// the name is removed, if there is one, and the item is Deleted.
pub fn delete_item(registry: &mut Registry, spec: &ComponentSpec) -> (r: ComponentResultSpec)
    ensures
        r@ == delete_outcome(true),
        final(registry)@ == after_delete(old(registry)@, spec@.name),
{
    proof {
        reveal_strlit("component deleted successfully");
    }
    registry.apply_delete(&spec.name);
    ComponentResultSpec::new(State::Deleted, "component deleted successfully")
}

/// The registry shared by all requests.
pub struct DeploymentState {
    components: RwLock<Registry>,
}

impl DeploymentState {
    /// A state whose registry is empty.
    pub fn new() -> (r: DeploymentState) {
        DeploymentState { components: new_lock(Registry::new()) }
    }

    /// The stored components that the references name, in their order,
    /// read under shared access: the lookup of every reference in one valid
    /// registry state. On a poisoned lock nothing is returned.
    pub fn get_status(&self, references: Vec<ComponentSpec>, _deployment_spec: DeploymentSpec) -> (r: Vec<ComponentSpec>)
        ensures
            exists|m: Map<Seq<char>, ComponentSpecView>|
                valid_registry(m) && views(r@) == fetch_model(m, views(references@)),
    {
        let guard = read_guard(&self.components);
        let r = match &guard {
            Some(g) => status_from_read(Some(guard_ref(g)), &references),
            None => {
                let r = status_from_read(None, &references);
                proof {
                    lemma_fetch_from_empty(views(references@));
                    assert(views(r@) =~= Seq::<ComponentSpecView>::empty());
                    assert(valid_registry(Map::<Seq<char>, ComponentSpecView>::empty()));
                }
                r
            },
        };
        r
    }

    /// Applies each update item on its own. An item without a firmware image
    /// locator is InvalidArgument before any access to the registry; a valid
    /// item takes exclusive access, replaces the entry of its name and is OK,
    /// or is InternalError when access fails. Every name of the batch gets
    /// the result of its last item.
    pub fn update_components(
        &self,
        components_to_update: Vec<ComponentSpec>,
        _deployment_spec: DeploymentSpec,
    ) -> (r: BatchResult)
        ensures
            exists|acquired: Seq<bool>|
                acquired.len() == components_to_update@.len()
                && r@ == update_results(views(components_to_update@), acquired),
    {
        let specs = &components_to_update;
        let mut result = BatchResult::new();
        let ghost mut acquired: Seq<bool> = Seq::empty();
        let mut i: usize = 0;
        while i < specs.len()
            invariant
                i <= specs@.len(),
                acquired.len() == i,
                result@ == update_results(views(specs@.take(i as int)), acquired),
            decreases specs@.len() - i,
        {
            let spec = &specs[i];
            let (outcome, got) = if !spec.has_fw_image() {
                proof {
                    reveal_strlit("Firmware ComponentSpec must contain fw-image property");
                }
                (
                    ComponentResultSpec::new(
                        State::InvalidArgument,
                        "Firmware ComponentSpec must contain fw-image property",
                    ),
                    false,
                )
            } else {
                match write_guard(&self.components) {
                    Some(mut g) => (update_item(guard_mut(&mut g), spec), true),
                    None => {
                        proof {
                            reveal_strlit("failed to acquire lock for updating component");
                        }
                        (
                            ComponentResultSpec::new(
                                State::InternalError,
                                "failed to acquire lock for updating component",
                            ),
                            false,
                        )
                    },
                }
            };
            let ghost before = acquired;
            proof {
                acquired = acquired.push(got);
                let s = views(specs@.take(i + 1));
                assert(s.drop_last() =~= views(specs@.take(i as int)));
                assert(s.last() == spec@);
                lemma_update_results_prefix(s.drop_last(), before, acquired);
            }
            result.insert(spec.name.clone(), outcome);
            i = i + 1;
        }
        assert(specs@.take(specs@.len() as int) =~= specs@);
        result
    }

    /// Applies each delete item under its own exclusive access: the entry of
    /// its name is removed, if there is one, and the item is Deleted; an item
    /// for which access fails is InternalError. Every name of the batch gets
    /// the result of its last item.
    pub fn delete_components(
        &self,
        components_to_delete: Vec<ComponentSpec>,
        _deployment_spec: DeploymentSpec,
    ) -> (r: BatchResult)
        ensures
            exists|acquired: Seq<bool>|
                acquired.len() == components_to_delete@.len()
                && r@ == delete_results(views(components_to_delete@), acquired),
    {
        let specs = &components_to_delete;
        let mut result = BatchResult::new();
        let ghost mut acquired: Seq<bool> = Seq::empty();
        let mut i: usize = 0;
        while i < specs.len()
            invariant
                i <= specs@.len(),
                acquired.len() == i,
                result@ == delete_results(views(specs@.take(i as int)), acquired),
            decreases specs@.len() - i,
        {
            let spec = &specs[i];
            let (outcome, got) = match write_guard(&self.components) {
                Some(mut g) => (delete_item(guard_mut(&mut g), spec), true),
                None => {
                    proof {
                        reveal_strlit("failed to acquire lock for deleting component");
                    }
                    (
                        ComponentResultSpec::new(State::InternalError, "failed to acquire lock for deleting component"),
                        false,
                    )
                },
            };
            let ghost before = acquired;
            proof {
                acquired = acquired.push(got);
                let s = views(specs@.take(i + 1));
                assert(s.drop_last() =~= views(specs@.take(i as int)));
                assert(s.last() == spec@);
                lemma_delete_results_prefix(s.drop_last(), before, acquired);
            }
            result.insert(spec.name.clone(), outcome);
            i = i + 1;
        }
        assert(specs@.take(specs@.len() as int) =~= specs@);
        result
    }
}

/// Extending the access record past the batch does not change its results.
proof fn lemma_update_results_prefix(specs: Seq<ComponentSpecView>, a: Seq<bool>, b: Seq<bool>)
    requires
        specs.len() <= a.len(),
        a.len() <= b.len(),
        forall|i: int| 0 <= i < a.len() ==> a[i] == b[i],
    ensures
        update_results(specs, a) == update_results(specs, b),
    decreases specs.len(),
{
    if specs.len() > 0 {
        lemma_update_results_prefix(specs.drop_last(), a, b);
    }
}

/// Extending the access record past the batch does not change its results.
proof fn lemma_delete_results_prefix(specs: Seq<ComponentSpecView>, a: Seq<bool>, b: Seq<bool>)
    requires
        specs.len() <= a.len(),
        a.len() <= b.len(),
        forall|i: int| 0 <= i < a.len() ==> a[i] == b[i],
    ensures
        delete_results(specs, a) == delete_results(specs, b),
    decreases specs.len(),
{
    if specs.len() > 0 {
        lemma_delete_results_prefix(specs.drop_last(), a, b);
    }
}

} // verus!
