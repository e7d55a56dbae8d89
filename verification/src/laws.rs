//! The laws the store and its views obey, stated over the abstract model
//! that every public contract speaks in, and proved once and for all.

use crate::store::spec_add;
use crate::store::spec_get;
use crate::value::elem_type_of;
use crate::value::AttrError;
use crate::value::AttrModel;
use crate::value::ElemType;
use crate::view::spec_acquire_i32;
use crate::view::spec_acquire_i64;
use vstd::prelude::*;

verus! {

/// Write-once: after a first `add` binds a name, a second `add` of the same
/// name — whatever value it carries — is refused with the duplicate-write
/// error, the state is unchanged, and a read still returns the first value.
pub proof fn law_write_once(
    m: Map<Seq<char>, AttrModel>,
    n: Seq<char>,
    v1: AttrModel,
    v2: AttrModel,
)
    requires
        !m.contains_key(n),
    ensures
        ({
            let m1 = m.insert(n, v1);
            &&& spec_add(m, n, v1) == Ok::<Map<Seq<char>, AttrModel>, AttrError>(m1)
            &&& spec_add(m1, n, v2) == Err::<Map<Seq<char>, AttrModel>, AttrError>(
                AttrError::DuplicateWrite,
            )
            &&& spec_get(m1, n) == Ok::<AttrModel, AttrError>(v1)
        }),
{
}

/// Round trip: an `add` of any value under a fresh name succeeds, and a `get`
/// of that name returns a value observationally equal to the one added.
pub proof fn law_round_trip(m: Map<Seq<char>, AttrModel>, n: Seq<char>, v: AttrModel)
    requires
        !m.contains_key(n),
    ensures
        spec_add(m, n, v) == Ok::<Map<Seq<char>, AttrModel>, AttrError>(m.insert(n, v)),
        spec_get(m.insert(n, v), n) == Ok::<AttrModel, AttrError>(v),
{
}

/// Miss: on a fresh store `get` fails with the not-found error for every name.
pub proof fn law_fresh_miss(n: Seq<char>)
    ensures
        spec_get(Map::<Seq<char>, AttrModel>::empty(), n) == Err::<AttrModel, AttrError>(
            AttrError::NotFound,
        ),
{
    assert(!Map::<Seq<char>, AttrModel>::empty().contains_key(n));
}

/// View type safety: a view acquisition — shared or exclusive — fails with
/// the type-mismatch error whenever the stored value's declared element type
/// differs from the requested one, for each supported element type.
pub proof fn law_view_type_safety(m: Map<Seq<char>, AttrModel>, n: Seq<char>)
    requires
        m.contains_key(n),
    ensures
        elem_type_of(m[n]) != Some(ElemType::I32) ==> spec_acquire_i32(m, n) == Err::<
            Seq<i32>,
            AttrError,
        >(AttrError::TypeMismatch),
        elem_type_of(m[n]) != Some(ElemType::I64) ==> spec_acquire_i64(m, n) == Err::<
            Seq<i64>,
            AttrError,
        >(AttrError::TypeMismatch),
{
}

/// View contiguity: a view acquisition — shared or exclusive — on a buffer
/// that is not one dense memory run fails with the non-contiguous error and
/// returns no view.
pub proof fn law_view_contiguity(m: Map<Seq<char>, AttrModel>, n: Seq<char>)
    requires
        m.contains_key(n),
    ensures
        (m[n] matches AttrModel::BufI32 { contiguous: false, .. }) ==> spec_acquire_i32(m, n)
            == Err::<Seq<i32>, AttrError>(AttrError::NonContiguous),
        (m[n] matches AttrModel::BufI64 { contiguous: false, .. }) ==> spec_acquire_i64(m, n)
            == Err::<Seq<i64>, AttrError>(AttrError::NonContiguous),
{
}

/// Mutation visibility: writing a value at one index through an exclusive
/// view leaves the store bound to the buffer updated at exactly that index —
/// which is what the exclusive view's contract says the state becomes — so a
/// later opaque read, or a later shared view, observes the written value at
/// the same logical index and every other element unchanged.
pub proof fn law_mutation_visible(
    m: Map<Seq<char>, AttrModel>,
    n: Seq<char>,
    data: Seq<i32>,
    i: int,
    x: i32,
)
    requires
        spec_acquire_i32(m, n) == Ok::<Seq<i32>, AttrError>(data),
        0 <= i < data.len(),
    ensures
        ({
            let written = AttrModel::BufI32 { data: data.update(i, x), contiguous: true };
            &&& spec_get(m.insert(n, written), n) == Ok::<AttrModel, AttrError>(written)
            &&& spec_acquire_i32(m.insert(n, written), n) == Ok::<Seq<i32>, AttrError>(
                data.update(i, x),
            )
            &&& data.update(i, x)[i] == x
            &&& forall|j: int| 0 <= j < data.len() && j != i ==> data.update(i, x)[j] == data[j]
        }),
{
}

} // verus!
