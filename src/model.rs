//! The values that flow through the inventory and the spec functions that
//! say what each operation does to them.
use vstd::prelude::*;

verus! {

/// The deployment context that accompanies every request. Nothing here
/// inspects it; it is carried through to the operations.
#[verifier::external_type_specification]
#[verifier::external_body]
pub struct ExDeploymentSpec(symphony::models::DeploymentSpec);

/// A named, manageable unit together with its string properties.
#[derive(Clone, Debug)]
pub struct ComponentSpec {
    pub name: String,
    pub properties: Option<Vec<(String, String)>>,
}

/// The mathematical value of a [`ComponentSpec`].
pub struct ComponentSpecView {
    pub name: Seq<char>,
    pub properties: Option<Seq<(Seq<char>, Seq<char>)>>,
}

pub open spec fn property_view(p: (String, String)) -> (Seq<char>, Seq<char>) {
    (p.0@, p.1@)
}

impl View for ComponentSpec {
    type V = ComponentSpecView;

    open spec fn view(&self) -> ComponentSpecView {
        ComponentSpecView {
            name: self.name@,
            properties: match self.properties {
                Some(p) => Some(p@.map_values(|q: (String, String)| property_view(q))),
                None => None,
            },
        }
    }
}

/// The views of a sequence of component specifications.
pub open spec fn views(s: Seq<ComponentSpec>) -> Seq<ComponentSpecView> {
    s.map_values(|c: ComponentSpec| c@)
}

/// The property key that every component submitted for update must carry.
pub open spec fn fw_image_key() -> Seq<char> {
    "fw-image"@
}

/// Whether the component's properties hold a firmware image locator.
pub open spec fn has_fw_image(c: ComponentSpecView) -> bool {
    match c.properties {
        Some(p) => exists|i: int| 0 <= i < p.len() && (#[trigger] p[i]).0 == fw_image_key(),
        None => false,
    }
}

/// The outcome kind of one item of a batch.
#[derive(Clone, Copy, Debug, PartialEq, Eq, Structural)]
pub enum State {
    OK,
    Deleted,
    InvalidArgument,
    InternalError,
}

/// The outcome of applying one operation to one component.
#[derive(Clone, Debug)]
pub struct ComponentResultSpec {
    pub status: State,
    pub message: String,
}

/// The mathematical value of a [`ComponentResultSpec`].
pub struct ComponentResultView {
    pub status: State,
    pub message: Seq<char>,
}

impl View for ComponentResultSpec {
    type V = ComponentResultView;

    open spec fn view(&self) -> ComponentResultView {
        ComponentResultView { status: self.status, message: self.message@ }
    }
}

pub open spec fn updated_message() -> Seq<char> {
    "component updated successfully"@
}

pub open spec fn missing_fw_image_message() -> Seq<char> {
    "Firmware ComponentSpec must contain fw-image property"@
}

pub open spec fn update_lock_failure_message() -> Seq<char> {
    "failed to acquire lock for updating component"@
}

pub open spec fn deleted_message() -> Seq<char> {
    "component deleted successfully"@
}

pub open spec fn delete_lock_failure_message() -> Seq<char> {
    "failed to acquire lock for deleting component"@
}

/// The result of one update item. The item is validated first; only a
/// valid item asks for exclusive access, and `acquired` tells whether it was
/// obtained.
pub open spec fn update_outcome(c: ComponentSpecView, acquired: bool) -> ComponentResultView {
    if !has_fw_image(c) {
        ComponentResultView { status: State::InvalidArgument, message: missing_fw_image_message() }
    } else if !acquired {
        ComponentResultView { status: State::InternalError, message: update_lock_failure_message() }
    } else {
        ComponentResultView { status: State::OK, message: updated_message() }
    }
}

/// The result of one delete item: `acquired` tells whether exclusive access
/// to the registry was obtained for it.
pub open spec fn delete_outcome(acquired: bool) -> ComponentResultView {
    if acquired {
        ComponentResultView { status: State::Deleted, message: deleted_message() }
    } else {
        ComponentResultView { status: State::InternalError, message: delete_lock_failure_message() }
    }
}

impl ComponentSpec {
    /// A component without properties.
    pub fn named(name: String) -> (r: ComponentSpec)
        ensures
            r@.name == name@,
            r@.properties is None,
    {
        ComponentSpec { name, properties: None }
    }

    /// A component with the given properties.
    pub fn with_properties(name: String, properties: Vec<(String, String)>) -> (r: ComponentSpec)
        ensures
            r@.name == name@,
            r@.properties == Some(properties@.map_values(|q: (String, String)| property_view(q))),
    {
        ComponentSpec { name, properties: Some(properties) }
    }

    /// An exact copy of this component.
    pub fn duplicate(&self) -> (r: ComponentSpec)
        ensures
            r@ == self@,
    {
        let properties = match &self.properties {
            None => None,
            Some(p) => {
                let mut q: Vec<(String, String)> = Vec::new();
                let mut i: usize = 0;
                while i < p.len()
                    invariant
                        i <= p.len(),
                        q@.len() == i,
                        forall|j: int| 0 <= j < i ==> property_view(#[trigger] q@[j]) == property_view(p@[j]),
                    decreases p.len() - i,
                {
                    let k = p[i].0.clone();
                    let v = p[i].1.clone();
                    q.push((k, v));
                    i = i + 1;
                }
                assert(q@.map_values(|x: (String, String)| property_view(x)) =~= p@.map_values(|x: (String, String)| property_view(x)));
                Some(q)
            },
        };
        ComponentSpec { name: self.name.clone(), properties }
    }

    /// Whether the properties hold a firmware image locator.
    pub fn has_fw_image(&self) -> (r: bool)
        ensures
            r == has_fw_image(self@),
    {
        match &self.properties {
            None => false,
            Some(p) => {
                let key = "fw-image".to_owned();
                let mut i: usize = 0;
                while i < p.len()
                    invariant
                        i <= p.len(),
                        key@ == fw_image_key(),
                        self.properties == Some(*p),
                        forall|j: int| 0 <= j < i ==> p@[j].0@ != fw_image_key(),
                    decreases p.len() - i,
                {
                    if p[i].0 == key {
                        assert(self@.properties.unwrap()[i as int].0 == fw_image_key());
                        return true;
                    }
                    i = i + 1;
                }
                assert forall|j: int| 0 <= j < self@.properties.unwrap().len() implies
                    (#[trigger] self@.properties.unwrap()[j]).0 != fw_image_key() by {
                    assert(p@[j].0@ != fw_image_key());
                }
                false
            },
        }
    }
}

impl ComponentResultSpec {
    pub fn new(status: State, message: &str) -> (r: ComponentResultSpec)
        ensures
            r@ == (ComponentResultView { status, message: message@ }),
    {
        ComponentResultSpec { status, message: message.to_owned() }
    }
}

} // verus!
