//! The write-once attribute store.
//!
//! A store owns a mapping from attribute name to opaque value together with
//! the record of names already written. Its abstract state is a map from
//! name (as a sequence of characters) to the value's model; `add` is the
//! only mutator and inserts a binding exactly once.

use crate::value::AttrError;
use crate::value::AttrModel;
use crate::value::AttrValue;
use vstd::prelude::*;
use vstd::string::StringExecFns;

verus! {

/// What `add` does to the abstract state: refused outright on a name already
/// written, otherwise the binding is inserted.
pub open spec fn spec_add(
    m: Map<Seq<char>, AttrModel>,
    n: Seq<char>,
    v: AttrModel,
) -> Result<Map<Seq<char>, AttrModel>, AttrError> {
    if m.contains_key(n) {
        Err(AttrError::DuplicateWrite)
    } else {
        Ok(m.insert(n, v))
    }
}

/// What `get` returns from the abstract state: the value bound to the name,
/// or a miss for a name never written.
pub open spec fn spec_get(m: Map<Seq<char>, AttrModel>, n: Seq<char>) -> Result<
    AttrModel,
    AttrError,
> {
    if m.contains_key(n) {
        Ok(m[n])
    } else {
        Err(AttrError::NotFound)
    }
}

/// A mapping from attribute name to opaque value, append-only: each name is
/// assigned at most once and its value is never replaced afterwards.
pub struct AttributeStore {
    /// The names already written, in insertion order, pairwise distinct.
    pub names: Vec<String>,
    /// The value written under the name at the same position.
    pub vals: Vec<AttrValue>,
}

impl AttributeStore {
    /// Well-formedness: one value per written name, names pairwise distinct.
    pub open spec fn wf(self) -> bool {
        &&& self.names@.len() == self.vals@.len()
        &&& forall|i: int, j: int|
            0 <= i < j < self.names@.len() ==> self.names@[i]@ != self.names@[j]@
    }

    /// Whether some name has been written.
    pub open spec fn has_name(self, n: Seq<char>) -> bool {
        exists|i: int| 0 <= i < self.names@.len() && self.names@[i]@ == n
    }

    /// The position a written name was inserted at.
    pub open spec fn index_of(self, n: Seq<char>) -> int {
        choose|i: int| 0 <= i < self.names@.len() && self.names@[i]@ == n
    }

    /// The abstract state: the map from written name to the model of its value.
    pub open spec fn contents(self) -> Map<Seq<char>, AttrModel> {
        Map::new(|n: Seq<char>| self.has_name(n), |n: Seq<char>| self.vals@[self.index_of(n)]@)
    }

    /// In a well-formed store a name determines its position.
    pub proof fn lemma_index_unique(self, i: int)
        requires
            self.wf(),
            0 <= i < self.names@.len(),
        ensures
            self.has_name(self.names@[i]@),
            self.index_of(self.names@[i]@) == i,
    {
        let n = self.names@[i]@;
        assert(self.has_name(n));
        let j = self.index_of(n);
        if i < j {
            assert(self.names@[i]@ != self.names@[j]@);
        } else if j < i {
            assert(self.names@[j]@ != self.names@[i]@);
        }
    }

    /// Returns an empty store: nothing written yet.
    pub fn new() -> (s: Self)
        ensures
            s.wf(),
            s.contents() == Map::<Seq<char>, AttrModel>::empty(),
    {
        let s = AttributeStore { names: Vec::new(), vals: Vec::new() };
        proof {
            assert(s.contents() =~= Map::<Seq<char>, AttrModel>::empty());
        }
        s
    }

    /// The position the name was written at, if it was.
    pub(crate) fn find_index(&self, name: &String) -> (r: Option<usize>)
        ensures
            match r {
                Some(i) => i < self.names@.len() && self.names@[i as int]@ == name@,
                None => !self.has_name(name@),
            },
    {
        let mut j: usize = 0;
        while j < self.names.len()
            invariant
                j <= self.names@.len(),
                forall|k: int| 0 <= k < j ==> self.names@[k]@ != name@,
            decreases self.names@.len() - j,
        {
            if self.names[j] == *name {
                return Some(j);
            }
            j += 1;
        }
        None
    }

    /// Writes a value under a name that was never written before; a repeated
    /// write of the same name is refused and leaves the store untouched.
    pub fn add(&mut self, name: String, value: AttrValue) -> (r: Result<(), AttrError>)
        requires
            old(self).wf(),
            name@.len() > 0,
        ensures
            final(self).wf(),
            match spec_add(old(self).contents(), name@, value@) {
                Ok(m2) => r == Ok::<(), AttrError>(()) && final(self).contents() == m2,
                Err(e) => r == Err::<(), AttrError>(e) && *final(self) == *old(self),
            },
    {
        match self.find_index(&name) {
            Some(_) => Err(AttrError::DuplicateWrite),
            None => {
                let ghost pre = *self;
                let ghost n = name@;
                let ghost v = value@;
                self.names.push(name);
                self.vals.push(value);
                proof {
                    let plen = pre.names@.len() as int;
                    assert forall|i: int, j: int|
                        0 <= i < j < self.names@.len() implies self.names@[i]@
                        != self.names@[j]@ by {
                        if j < plen {
                            assert(pre.names@[i]@ != pre.names@[j]@);
                        } else {
                            assert(self.names@[j]@ == n);
                            assert(pre.names@[i]@ != n);
                        }
                    }
                    let m_new = self.contents();
                    let m_old = pre.contents().insert(n, v);
                    assert forall|k: Seq<char>| #[trigger] m_new.contains_key(k) implies m_old.contains_key(k)
                        && m_new[k] == m_old[k] by {
                        let i = self.index_of(k);
                        assert(0 <= i < self.names@.len() && self.names@[i]@ == k);
                        self.lemma_index_unique(i);
                        if i == plen {
                            assert(k == n);
                            assert(m_new[k] == v);
                        } else {
                            assert(pre.names@[i]@ == k);
                            assert(k != n);
                            assert(pre.has_name(k));
                            pre.lemma_index_unique(i);
                            assert(m_old[k] == pre.vals@[i]@);
                            assert(m_new[k] == self.vals@[i]@);
                        }
                    }
                    assert forall|k: Seq<char>| #[trigger] m_old.contains_key(k) implies m_new.contains_key(
                        k,
                    ) by {
                        if k == n {
                            assert(self.names@[plen]@ == n);
                            assert(self.has_name(k));
                        } else {
                            assert(pre.has_name(k));
                            let i = pre.index_of(k);
                            assert(0 <= i < pre.names@.len() && pre.names@[i]@ == k);
                            assert(self.names@[i]@ == k);
                            assert(self.has_name(k));
                        }
                    }
                    assert(m_new =~= m_old);
                }
                Ok(())
            },
        }
    }

    /// Reads the value written under a name; the caller receives a shared
    /// reference, the value itself stays owned by the store.
    pub fn get<'a>(&'a self, name: &str) -> (r: Result<&'a AttrValue, AttrError>)
        requires
            self.wf(),
        ensures
            match spec_get(self.contents(), name@) {
                Ok(v) => r matches Ok(rv) && rv@ == v,
                Err(e) => r matches Err(e2) && e2 == e,
            },
    {
        let key = String::from_str(name);
        match self.find_index(&key) {
            Some(i) => {
                proof {
                    self.lemma_index_unique(i as int);
                }
                Ok(&self.vals[i])
            },
            None => Err(AttrError::NotFound),
        }
    }
}

} // verus!
