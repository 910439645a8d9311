//! The registry: component name to the last accepted component specification.
use vstd::prelude::*;

use crate::model::{has_fw_image, views, ComponentSpec, ComponentSpecView};

verus! {

/// Every key of the registry is the name of the component stored under it,
/// and every stored component carries a firmware image locator.
pub open spec fn valid_registry(m: Map<Seq<char>, ComponentSpecView>) -> bool {
    forall|k: Seq<char>| #[trigger] m.contains_key(k) ==> m[k].name == k && has_fw_image(m[k])
}

/// The registry after one update item: the component replaces the entry of
/// its name when it carries a firmware image locator, and nothing changes
/// otherwise.
pub open spec fn after_update(
    m: Map<Seq<char>, ComponentSpecView>,
    c: ComponentSpecView,
) -> Map<Seq<char>, ComponentSpecView> {
    if has_fw_image(c) {
        m.insert(c.name, c)
    } else {
        m
    }
}

/// The registry after one delete item.
pub open spec fn after_delete(
    m: Map<Seq<char>, ComponentSpecView>,
    name: Seq<char>,
) -> Map<Seq<char>, ComponentSpecView> {
    m.remove(name)
}

/// The stored components that the references name, in the order of the
/// references; a reference without an entry contributes nothing.
pub open spec fn fetch_model(
    m: Map<Seq<char>, ComponentSpecView>,
    refs: Seq<ComponentSpecView>,
) -> Seq<ComponentSpecView>
    decreases refs.len(),
{
    if refs.len() == 0 {
        Seq::empty()
    } else {
        let rest = fetch_model(m, refs.drop_last());
        let n = refs.last().name;
        if m.contains_key(n) {
            rest.push(m[n])
        } else {
            rest
        }
    }
}

/// The entries hold distinct names, and they are exactly the model's
/// entries.
spec fn entries_match(e: Seq<ComponentSpec>, m: Map<Seq<char>, ComponentSpecView>) -> bool {
    &&& forall|i: int, j: int|
        0 <= i < j < e.len() ==> (#[trigger] e[i]).name@ != (#[trigger] e[j]).name@
    &&& forall|i: int|
        0 <= i < e.len() ==> m.contains_key((#[trigger] e[i]).name@) && m[e[i].name@] == e[i]@
            && has_fw_image(e[i]@)
    &&& forall|k: Seq<char>| #[trigger]
        m.contains_key(k) ==> exists|i: int| 0 <= i < e.len() && (#[trigger] e[i]).name@ == k
}

proof fn lemma_swap_remove(e: Seq<ComponentSpec>, m: Map<Seq<char>, ComponentSpecView>, i: int)
    requires
        entries_match(e, m),
        0 <= i < e.len(),
    ensures
        entries_match(e.update(i, e.last()).drop_last(), m.remove(e[i].name@)),
        !m.remove(e[i].name@).contains_key(e[i].name@),
{
    let n = e[i].name@;
    let e1 = e.update(i, e.last()).drop_last();
    let m1 = m.remove(n);
    let last = e.len() - 1;
    assert forall|j: int| 0 <= j < e1.len() implies #[trigger] e1[j] == e[if j == i { last } else { j }] by {}
    assert forall|j: int, l: int| 0 <= j < l < e1.len() implies (#[trigger] e1[j]).name@
        != (#[trigger] e1[l]).name@ by {
        let a = if j == i { last } else { j };
        let b = if l == i { last } else { l };
        if a < b {
            assert(e[a].name@ != e[b].name@);
        } else {
            assert(e[b].name@ != e[a].name@);
        }
    }
    assert forall|j: int| 0 <= j < e1.len() implies m1.contains_key((#[trigger] e1[j]).name@)
        && m1[e1[j].name@] == e1[j]@ by {
        let a = if j == i { last } else { j };
        if a < i {
            assert(e[a].name@ != e[i].name@);
        } else {
            assert(e[i].name@ != e[a].name@);
        }
    }
    assert forall|k: Seq<char>| #[trigger] m1.contains_key(k) implies exists|j: int|
        0 <= j < e1.len() && (#[trigger] e1[j]).name@ == k by {
        let a = choose|a: int| 0 <= a < e.len() && (#[trigger] e[a]).name@ == k;
        if a == last {
            assert(e1[i].name@ == k);
        } else {
            assert(e1[a].name@ == k);
        }
    }
}

proof fn lemma_push(e: Seq<ComponentSpec>, m: Map<Seq<char>, ComponentSpecView>, c: ComponentSpec)
    requires
        entries_match(e, m),
        !m.contains_key(c.name@),
        has_fw_image(c@),
    ensures
        entries_match(e.push(c), m.insert(c.name@, c@)),
{
    let e1 = e.push(c);
    let m1 = m.insert(c.name@, c@);
    assert forall|j: int, l: int| 0 <= j < l < e1.len() implies (#[trigger] e1[j]).name@
        != (#[trigger] e1[l]).name@ by {
        if l == e.len() {
            assert(m.contains_key(e[j].name@));
        } else {
            assert(e[j].name@ != e[l].name@);
        }
    }
    assert forall|j: int| 0 <= j < e1.len() implies m1.contains_key((#[trigger] e1[j]).name@)
        && m1[e1[j].name@] == e1[j]@ by {
        if j < e.len() {
            assert(m.contains_key(e[j].name@));
        }
    }
    assert forall|k: Seq<char>| #[trigger] m1.contains_key(k) implies exists|j: int|
        0 <= j < e1.len() && (#[trigger] e1[j]).name@ == k by {
        if k == c.name@ {
            assert(e1[e.len() as int].name@ == k);
        } else {
            let a = choose|a: int| 0 <= a < e.len() && (#[trigger] e[a]).name@ == k;
            assert(e1[a].name@ == k);
        }
    }
}

/// The registry of components, keyed by name.
pub struct Registry {
    entries: Vec<ComponentSpec>,
    model: Ghost<Map<Seq<char>, ComponentSpecView>>,
}

impl View for Registry {
    type V = Map<Seq<char>, ComponentSpecView>;

    closed spec fn view(&self) -> Map<Seq<char>, ComponentSpecView> {
        self.model@
    }
}

impl Registry {
    #[verifier::type_invariant]
    spec fn inv(self) -> bool {
        entries_match(self.entries@, self.model@)
    }

    /// An empty registry.
    pub fn new() -> (r: Registry)
        ensures
            r@ == Map::<Seq<char>, ComponentSpecView>::empty(),
    {
        Registry { entries: Vec::new(), model: Ghost(Map::empty()) }
    }

    fn find(&self, name: &String) -> (r: Option<usize>)
        ensures
            match r {
                Some(i) => i < self.entries@.len() && self.entries@[i as int].name@ == name@,
                None => !self@.contains_key(name@),
            },
    {
        proof {
            use_type_invariant(self);
        }
        let mut i: usize = 0;
        while i < self.entries.len()
            invariant
                i <= self.entries@.len(),
                forall|j: int| 0 <= j < i ==> (#[trigger] self.entries@[j]).name@ != name@,
            decreases self.entries@.len() - i,
        {
            if self.entries[i].name == *name {
                return Some(i);
            }
            i = i + 1;
        }
        None
    }

    /// The component stored under the name, if any.
    pub fn get(&self, name: &String) -> (r: Option<ComponentSpec>)
        ensures
            match r {
                Some(c) => self@.contains_key(name@) && c@ == self@[name@],
                None => !self@.contains_key(name@),
            },
    {
        proof {
            use_type_invariant(self);
        }
        match self.find(name) {
            Some(i) => Some(self.entries[i].duplicate()),
            None => None,
        }
    }

    /// The stored components that the references name, in their order.
    pub fn fetch(&self, refs: &Vec<ComponentSpec>) -> (r: Vec<ComponentSpec>)
        ensures
            views(r@) == fetch_model(self@, views(refs@)),
            valid_registry(self@),
    {
        proof {
            use_type_invariant(self);
            assert forall|k: Seq<char>| #[trigger] self@.contains_key(k) implies self@[k].name == k
                && has_fw_image(self@[k]) by {
                let i = choose|i: int|
                    0 <= i < self.entries@.len() && (#[trigger] self.entries@[i]).name@ == k;
                assert(self.model@[self.entries@[i].name@] == self.entries@[i]@);
            }
        }
        let mut out: Vec<ComponentSpec> = Vec::new();
        let mut i: usize = 0;
        while i < refs.len()
            invariant
                i <= refs@.len(),
                views(out@) == fetch_model(self@, views(refs@.take(i as int))),
            decreases refs@.len() - i,
        {
            let ghost before = out@;
            assert(views(refs@.take(i + 1)).drop_last() =~= views(refs@.take(i as int)));
            match self.get(&refs[i].name) {
                Some(c) => {
                    out.push(c);
                    assert(views(out@) =~= views(before).push(c@));
                },
                None => {},
            }
            i = i + 1;
        }
        assert(refs@.take(refs@.len() as int) =~= refs@);
        out
    }

    /// Inserts the component when it carries a firmware image locator;
    /// returns whether it did.
    pub fn apply_update(&mut self, spec: &ComponentSpec) -> (r: bool)
        ensures
            r == has_fw_image(spec@),
            final(self)@ == after_update(old(self)@, spec@),
    {
        if !spec.has_fw_image() {
            return false;
        }
        let mut cur = Registry::new();
        std::mem::swap(self, &mut cur);
        proof {
            use_type_invariant(&cur);
        }
        let ghost old_model = cur.model@;
        let found = cur.find(&spec.name);
        let Registry { mut entries, model } = cur;
        let ghost e0 = entries@;
        match found {
            Some(i) => {
                proof {
                    lemma_swap_remove(e0, old_model, i as int);
                }
                entries.swap_remove(i);
            },
            None => {
                assert(old_model.remove(spec@.name) =~= old_model);
            },
        }
        let c = spec.duplicate();
        proof {
            lemma_push(entries@, old_model.remove(spec@.name), c);
            assert(old_model.remove(spec@.name).insert(c.name@, c@) =~= old_model.insert(spec@.name, spec@));
        }
        entries.push(c);
        *self = Registry { entries, model: Ghost(old_model.insert(spec@.name, spec@)) };
        true
    }

    /// Removes the entry of the name, if there is one.
    pub fn apply_delete(&mut self, name: &String)
        ensures
            final(self)@ == after_delete(old(self)@, name@),
    {
        let mut cur = Registry::new();
        std::mem::swap(self, &mut cur);
        proof {
            use_type_invariant(&cur);
        }
        let ghost old_model = cur.model@;
        let found = cur.find(name);
        let Registry { mut entries, model } = cur;
        let ghost e0 = entries@;
        match found {
            Some(i) => {
                proof {
                    lemma_swap_remove(e0, old_model, i as int);
                }
                entries.swap_remove(i);
            },
            None => {
                assert(old_model.remove(name@) =~= old_model);
            },
        }
        *self = Registry { entries, model: Ghost(old_model.remove(name@)) };
    }
}

} // verus!
