//! Typed views into buffer-valued attributes.
//!
//! A view is a non-owning, contiguous, element-typed window over the memory
//! of a previously written buffer attribute: a shared slice for reading, an
//! exclusive slice for writing in place. Acquisition validates the request
//! against the stored value's metadata: the name must have been written, the
//! declared element type must match the requested one, and the buffer must be
//! a single dense run. The borrow checker enforces the aliasing discipline:
//! while an exclusive view is live the store cannot be touched, and any
//! number of shared views may coexist.

use crate::store::AttributeStore;
use crate::value::AttrError;
use crate::value::AttrModel;
use crate::value::AttrValue;
use vstd::prelude::*;
use vstd::string::StringExecFns;

verus! {

/// What acquiring an `i32` view returns: the buffer's elements, or the error
/// the request fails with — a miss for an unwritten name, a type mismatch for
/// a non-buffer or differently typed value, and a contiguity failure for a
/// buffer that is not one dense run.
pub open spec fn spec_acquire_i32(m: Map<Seq<char>, AttrModel>, n: Seq<char>) -> Result<
    Seq<i32>,
    AttrError,
> {
    if !m.contains_key(n) {
        Err(AttrError::NotFound)
    } else {
        match m[n] {
            AttrModel::BufI32 { data, contiguous } => if contiguous {
                Ok(data)
            } else {
                Err(AttrError::NonContiguous)
            },
            _ => Err(AttrError::TypeMismatch),
        }
    }
}

/// What acquiring an `i64` view returns; the `i64` counterpart of
/// [`spec_acquire_i32`].
pub open spec fn spec_acquire_i64(m: Map<Seq<char>, AttrModel>, n: Seq<char>) -> Result<
    Seq<i64>,
    AttrError,
> {
    if !m.contains_key(n) {
        Err(AttrError::NotFound)
    } else {
        match m[n] {
            AttrModel::BufI64 { data, contiguous } => if contiguous {
                Ok(data)
            } else {
                Err(AttrError::NonContiguous)
            },
            _ => Err(AttrError::TypeMismatch),
        }
    }
}

/// What extracting a scalar returns: the stored scalar, a miss for an
/// unwritten name, or a type mismatch for any non-scalar value.
pub open spec fn spec_get_scalar(m: Map<Seq<char>, AttrModel>, n: Seq<char>) -> Result<
    i64,
    AttrError,
> {
    if !m.contains_key(n) {
        Err(AttrError::NotFound)
    } else {
        match m[n] {
            AttrModel::Scalar(x) => Ok(x),
            _ => Err(AttrError::TypeMismatch),
        }
    }
}

impl AttributeStore {
    /// Acquires a read-only `i32` view of a buffer attribute: a shared slice
    /// over the buffer's existing storage, no copy made.
    pub fn acquire_i32<'a>(&'a self, name: &str) -> (r: Result<&'a [i32], AttrError>)
        requires
            self.wf(),
        ensures
            match spec_acquire_i32(self.contents(), name@) {
                Ok(s) => r matches Ok(view) && view@ == s,
                Err(e) => r matches Err(e2) && e2 == e,
            },
    {
        let key = String::from_str(name);
        match self.find_index(&key) {
            None => Err(AttrError::NotFound),
            Some(i) => {
                proof {
                    self.lemma_index_unique(i as int);
                }
                match &self.vals[i] {
                    AttrValue::BufI32 { data, contiguous } => {
                        if *contiguous {
                            Ok(data.as_slice())
                        } else {
                            Err(AttrError::NonContiguous)
                        }
                    },
                    _ => Err(AttrError::TypeMismatch),
                }
            },
        }
    }

    /// Acquires a read-only `i64` view; the `i64` counterpart of
    /// [`AttributeStore::acquire_i32`].
    pub fn acquire_i64<'a>(&'a self, name: &str) -> (r: Result<&'a [i64], AttrError>)
        requires
            self.wf(),
        ensures
            match spec_acquire_i64(self.contents(), name@) {
                Ok(s) => r matches Ok(view) && view@ == s,
                Err(e) => r matches Err(e2) && e2 == e,
            },
    {
        let key = String::from_str(name);
        match self.find_index(&key) {
            None => Err(AttrError::NotFound),
            Some(i) => {
                proof {
                    self.lemma_index_unique(i as int);
                }
                match &self.vals[i] {
                    AttrValue::BufI64 { data, contiguous } => {
                        if *contiguous {
                            Ok(data.as_slice())
                        } else {
                            Err(AttrError::NonContiguous)
                        }
                    },
                    _ => Err(AttrError::TypeMismatch),
                }
            },
        }
    }

    /// Acquires a read-write `i32` view: an exclusive slice over the buffer's
    /// storage. Whatever the caller writes through the view is exactly what
    /// the store holds under the name once the view's borrow ends, so a later
    /// opaque read observes every in-place mutation.
    pub fn acquire_mut_i32<'a>(&'a mut self, name: &str) -> (r: Result<&'a mut [i32], AttrError>)
        requires
            old(self).wf(),
        ensures
            final(self).wf(),
            match spec_acquire_i32(old(self).contents(), name@) {
                Ok(s) => r matches Ok(view) && view@ == s && final(self).contents() == old(
                    self,
                ).contents().insert(
                    name@,
                    AttrModel::BufI32 { data: final(view)@, contiguous: true },
                ),
                Err(e) => r matches Err(e2) && e2 == e && *final(self) == *old(self),
            },
    {
        let key = String::from_str(name);
        let found = self.find_index(&key);
        match found {
            None => Err(AttrError::NotFound),
            Some(i) => {
                proof {
                    self.lemma_index_unique(i as int);
                }
                match &self.vals[i] {
                    AttrValue::BufI32 { contiguous, .. } => {
                        if !*contiguous {
                            return Err(AttrError::NonContiguous);
                        }
                    },
                    _ => {
                        return Err(AttrError::TypeMismatch);
                    },
                }
                let ghost pre = *self;
                let ghost n = name@;
                proof {
                    assert forall|post: AttributeStore|
                        post.names@ == pre.names@ && post.vals@.len() == pre.vals@.len() && (
                        forall|j: int|
                            0 <= j < pre.vals@.len() && j != i ==> post.vals@[j]
                                == pre.vals@[j]) implies #[trigger] post.contents()
                        == pre.contents().insert(n, post.vals@[i as int]@) && post.wf() by {
                        lemma_contents_update(pre, post, n, i as int);
                    }
                }
                let slot = &mut self.vals[i];
                match slot {
                    AttrValue::BufI32 { data, .. } => {
                        let view = data.as_mut_slice();
                        Ok(view)
                    },
                    _ => Err(AttrError::TypeMismatch),
                }
            },
        }
    }

    /// Acquires a read-write `i64` view; the `i64` counterpart of
    /// [`AttributeStore::acquire_mut_i32`].
    pub fn acquire_mut_i64<'a>(&'a mut self, name: &str) -> (r: Result<&'a mut [i64], AttrError>)
        requires
            old(self).wf(),
        ensures
            final(self).wf(),
            match spec_acquire_i64(old(self).contents(), name@) {
                Ok(s) => r matches Ok(view) && view@ == s && final(self).contents() == old(
                    self,
                ).contents().insert(
                    name@,
                    AttrModel::BufI64 { data: final(view)@, contiguous: true },
                ),
                Err(e) => r matches Err(e2) && e2 == e && *final(self) == *old(self),
            },
    {
        let key = String::from_str(name);
        let found = self.find_index(&key);
        match found {
            None => Err(AttrError::NotFound),
            Some(i) => {
                proof {
                    self.lemma_index_unique(i as int);
                }
                match &self.vals[i] {
                    AttrValue::BufI64 { contiguous, .. } => {
                        if !*contiguous {
                            return Err(AttrError::NonContiguous);
                        }
                    },
                    _ => {
                        return Err(AttrError::TypeMismatch);
                    },
                }
                let ghost pre = *self;
                let ghost n = name@;
                proof {
                    assert forall|post: AttributeStore|
                        post.names@ == pre.names@ && post.vals@.len() == pre.vals@.len() && (
                        forall|j: int|
                            0 <= j < pre.vals@.len() && j != i ==> post.vals@[j]
                                == pre.vals@[j]) implies #[trigger] post.contents()
                        == pre.contents().insert(n, post.vals@[i as int]@) && post.wf() by {
                        lemma_contents_update(pre, post, n, i as int);
                    }
                }
                let slot = &mut self.vals[i];
                match slot {
                    AttrValue::BufI64 { data, .. } => {
                        let view = data.as_mut_slice();
                        Ok(view)
                    },
                    _ => Err(AttrError::TypeMismatch),
                }
            },
        }
    }

    /// Extracts the scalar stored under a name, as a typed copy of the opaque
    /// value.
    pub fn get_scalar(&self, name: &str) -> (r: Result<i64, AttrError>)
        requires
            self.wf(),
        ensures
            r == spec_get_scalar(self.contents(), name@),
    {
        let key = String::from_str(name);
        match self.find_index(&key) {
            None => Err(AttrError::NotFound),
            Some(i) => {
                proof {
                    self.lemma_index_unique(i as int);
                }
                match &self.vals[i] {
                    AttrValue::Scalar(x) => Ok(*x),
                    _ => Err(AttrError::TypeMismatch),
                }
            },
        }
    }
}

/// Replacing the value at one position rewrites exactly that name's binding
/// in the abstract state.
proof fn lemma_contents_update(pre: AttributeStore, post: AttributeStore, n: Seq<char>, i: int)
    requires
        pre.wf(),
        0 <= i < pre.names@.len(),
        pre.names@[i]@ == n,
        post.names@ == pre.names@,
        post.vals@.len() == pre.vals@.len(),
        forall|j: int| 0 <= j < pre.vals@.len() && j != i ==> post.vals@[j] == pre.vals@[j],
    ensures
        post.wf(),
        post.contents() == pre.contents().insert(n, post.vals@[i]@),
    {
    let m_new = post.contents();
    let m_old = pre.contents().insert(n, post.vals@[i]@);
    assert forall|k: Seq<char>| #[trigger] m_new.contains_key(k) implies m_old.contains_key(k)
        && m_new[k] == m_old[k] by {
        let j = post.index_of(k);
        assert(0 <= j < post.names@.len() && post.names@[j]@ == k);
        post.lemma_index_unique(j);
        pre.lemma_index_unique(j);
        if j == i {
            assert(k == n);
        } else {
            assert(k != n) by {
                if k == n {
                    assert(pre.names@[i]@ == pre.names@[j]@);
                }
            }
            assert(m_old[k] == pre.vals@[j]@);
            assert(m_new[k] == post.vals@[j]@);
        }
    }
    assert forall|k: Seq<char>| #[trigger] m_old.contains_key(k) implies m_new.contains_key(k) by {
        if k == n {
            assert(post.names@[i]@ == n);
        } else {
            let j = pre.index_of(k);
            assert(0 <= j < pre.names@.len() && pre.names@[j]@ == k);
            assert(post.names@[j]@ == k);
        }
    }
    assert(m_new =~= m_old);
}

} // verus!
