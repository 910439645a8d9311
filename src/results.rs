//! The per-item results of a batch: component name to its outcome.
use vstd::prelude::*;

use crate::model::{ComponentResultSpec, ComponentResultView};

verus! {

spec fn results_match(e: Seq<(String, ComponentResultSpec)>, m: Map<Seq<char>, ComponentResultView>) -> bool {
    &&& forall|i: int, j: int|
        0 <= i < j < e.len() ==> (#[trigger] e[i]).0@ != (#[trigger] e[j]).0@
    &&& forall|i: int|
        0 <= i < e.len() ==> m.contains_key((#[trigger] e[i]).0@) && m[e[i].0@] == e[i].1@
    &&& forall|k: Seq<char>| #[trigger]
        m.contains_key(k) ==> exists|i: int| 0 <= i < e.len() && (#[trigger] e[i]).0@ == k
}

/// The results of a batch, one per distinct component name; a later item
/// of the same name replaces the result of an earlier one.
pub struct BatchResult {
    entries: Vec<(String, ComponentResultSpec)>,
    model: Ghost<Map<Seq<char>, ComponentResultView>>,
}

impl View for BatchResult {
    type V = Map<Seq<char>, ComponentResultView>;

    closed spec fn view(&self) -> Map<Seq<char>, ComponentResultView> {
        self.model@
    }
}

impl BatchResult {
    #[verifier::type_invariant]
    spec fn inv(self) -> bool {
        results_match(self.entries@, self.model@)
    }

    /// No results.
    pub fn new() -> (r: BatchResult)
        ensures
            r@ == Map::<Seq<char>, ComponentResultView>::empty(),
    {
        BatchResult { entries: Vec::new(), model: Ghost(Map::empty()) }
    }

    /// The number of names with a result.
    pub fn len(&self) -> (r: usize)
        ensures
            r == self@.len(),
    {
        proof {
            use_type_invariant(self);
            lemma_len_of_indexed(self.entries@, self.model@);
        }
        self.entries.len()
    }

    fn find(&self, name: &String) -> (r: Option<usize>)
        ensures
            match r {
                Some(i) => i < self.entries@.len() && self.entries@[i as int].0@ == name@,
                None => !self@.contains_key(name@),
            },
    {
        proof {
            use_type_invariant(self);
        }
        let mut i: usize = 0;
        while i < self.entries.len()
            invariant
                i <= self.entries@.len(),
                forall|j: int| 0 <= j < i ==> (#[trigger] self.entries@[j]).0@ != name@,
            decreases self.entries@.len() - i,
        {
            if self.entries[i].0 == *name {
                return Some(i);
            }
            i = i + 1;
        }
        None
    }

    /// The result recorded for the name, if any.
    pub fn get(&self, name: &String) -> (r: Option<ComponentResultSpec>)
        ensures
            match r {
                Some(c) => self@.contains_key(name@) && c@ == self@[name@],
                None => !self@.contains_key(name@),
            },
    {
        proof {
            use_type_invariant(self);
        }
        match self.find(name) {
            Some(i) => {
                let c = &self.entries[i].1;
                Some(ComponentResultSpec { status: c.status, message: c.message.clone() })
            },
            None => None,
        }
    }

    /// Every name with its result, each name once.
    pub fn to_vec(&self) -> (r: Vec<(String, ComponentResultSpec)>)
        ensures
            r@.len() == self@.len(),
            forall|i: int| 0 <= i < r@.len() ==> self@.contains_key((#[trigger] r@[i]).0@) && self@[r@[i].0@] == r@[i].1@,
            forall|i: int, j: int| 0 <= i < j < r@.len() ==> (#[trigger] r@[i]).0@ != (#[trigger] r@[j]).0@,
    {
        proof {
            use_type_invariant(self);
            lemma_len_of_indexed(self.entries@, self.model@);
        }
        let mut out: Vec<(String, ComponentResultSpec)> = Vec::new();
        let mut i: usize = 0;
        while i < self.entries.len()
            invariant
                i <= self.entries@.len(),
                out@.len() == i,
                forall|j: int| 0 <= j < i ==> (#[trigger] out@[j]).0@ == self.entries@[j].0@ && out@[j].1@ == self.entries@[j].1@,
            decreases self.entries@.len() - i,
        {
            let e = &self.entries[i];
            out.push((e.0.clone(), ComponentResultSpec { status: e.1.status, message: e.1.message.clone() }));
            i = i + 1;
        }
        proof {
            assert forall|a: int, b: int| 0 <= a < b < out@.len() implies (#[trigger] out@[a]).0@ != (#[trigger] out@[b]).0@ by {
                assert(self.entries@[a].0@ != self.entries@[b].0@);
            }
        }
        out
    }

    /// Records the result for the name, replacing an earlier one.
    pub fn insert(&mut self, name: String, result: ComponentResultSpec)
        ensures
            final(self)@ == old(self)@.insert(name@, result@),
    {
        let mut cur = BatchResult::new();
        std::mem::swap(self, &mut cur);
        proof {
            use_type_invariant(&cur);
        }
        let ghost m0 = cur.model@;
        let found = cur.find(&name);
        let BatchResult { mut entries, model } = cur;
        let ghost e0 = entries@;
        match found {
            Some(i) => {
                let ghost e1 = e0.update(i as int, (name, result));
                entries.set(i, (name, result));
                proof {
                    let m1 = m0.insert(name@, result@);
                    assert forall|j: int| 0 <= j < e1.len() implies m1.contains_key((#[trigger] e1[j]).0@)
                        && m1[e1[j].0@] == e1[j].1@ by {
                        if j < i {
                            assert(e0[j].0@ != e0[i as int].0@);
                        } else if j > i {
                            assert(e0[i as int].0@ != e0[j].0@);
                        }
                    }
                    assert forall|k: Seq<char>| #[trigger] m1.contains_key(k) implies exists|j: int|
                        0 <= j < e1.len() && (#[trigger] e1[j]).0@ == k by {
                        if k == name@ {
                            assert(e1[i as int].0@ == k);
                        } else {
                            let a = choose|a: int| 0 <= a < e0.len() && (#[trigger] e0[a]).0@ == k;
                            assert(e1[a].0@ == k);
                        }
                    }
                }
            },
            None => {
                let ghost e1 = e0.push((name, result));
                entries.push((name, result));
                proof {
                    let m1 = m0.insert(name@, result@);
                    assert forall|j: int, l: int| 0 <= j < l < e1.len() implies (#[trigger] e1[j]).0@
                        != (#[trigger] e1[l]).0@ by {
                        if l == e0.len() {
                            assert(m0.contains_key(e0[j].0@));
                        } else {
                            assert(e0[j].0@ != e0[l].0@);
                        }
                    }
                    assert forall|j: int| 0 <= j < e1.len() implies m1.contains_key((#[trigger] e1[j]).0@)
                        && m1[e1[j].0@] == e1[j].1@ by {
                        if j < e0.len() {
                            assert(m0.contains_key(e0[j].0@));
                        }
                    }
                    assert forall|k: Seq<char>| #[trigger] m1.contains_key(k) implies exists|j: int|
                        0 <= j < e1.len() && (#[trigger] e1[j]).0@ == k by {
                        if k == name@ {
                            assert(e1[e0.len() as int].0@ == k);
                        } else {
                            let a = choose|a: int| 0 <= a < e0.len() && (#[trigger] e0[a]).0@ == k;
                            assert(e1[a].0@ == k);
                        }
                    }
                }
            },
        }
        *self = BatchResult { entries, model: Ghost(m0.insert(name@, result@)) };
    }
}

proof fn lemma_len_of_indexed(e: Seq<(String, ComponentResultSpec)>, m: Map<Seq<char>, ComponentResultView>)
    requires
        results_match(e, m),
    ensures
        m.len() == e.len(),
        m.dom().finite(),
    decreases e.len(),
{
    if e.len() == 0 {
        assert(m.dom() =~= Set::empty());
    } else {
        let last = e.last();
        let e1 = e.drop_last();
        let m1 = m.remove(last.0@);
        assert forall|i: int, j: int| 0 <= i < j < e1.len() implies (#[trigger] e1[i]).0@ != (#[trigger] e1[j]).0@ by {
            assert(e[i].0@ != e[j].0@);
        }
        assert forall|i: int| 0 <= i < e1.len() implies m1.contains_key((#[trigger] e1[i]).0@) && m1[e1[i].0@] == e1[i].1@ by {
            assert(e[i].0@ != e[e.len() - 1].0@);
            assert(m.contains_key(e[i].0@));
        }
        assert forall|k: Seq<char>| #[trigger] m1.contains_key(k) implies exists|i: int| 0 <= i < e1.len() && (#[trigger] e1[i]).0@ == k by {
            let a = choose|a: int| 0 <= a < e.len() && (#[trigger] e[a]).0@ == k;
            assert(a != e.len() - 1);
            assert(e1[a].0@ == k);
        }
        lemma_len_of_indexed(e1, m1);
        assert(m.contains_key(last.0@));
        assert(m.dom() =~= m1.dom().insert(last.0@));
    }
}

} // verus!
