//! The opaque attribute value and its mathematical model.
//!
//! A stored value is dynamically typed from the store's point of view: a
//! tagged variant carrying, for buffer values, the element type, the
//! elements themselves and a contiguity flag — enough metadata for view
//! acquisition to validate a request without any cooperation from the side
//! that produced the value.

use vstd::prelude::*;

verus! {

/// Element type tag of a buffer-valued attribute.
#[derive(Clone, Copy, Debug, PartialEq, Eq, Structural)]
pub enum ElemType {
    I32,
    I64,
}

/// The four failures an operation on the store can surface.
#[derive(Clone, Copy, Debug, PartialEq, Eq, Structural)]
pub enum AttrError {
    /// `add` was called twice for the same name; the store is left unchanged.
    DuplicateWrite,
    /// `get` or a view acquisition named an attribute that was never written.
    NotFound,
    /// A view was requested with an element type other than the stored one,
    /// or on a value that is not a buffer at all.
    TypeMismatch,
    /// The stored buffer is not a single dense memory run.
    NonContiguous,
}

/// An opaque value as the store holds it: a scalar, a typed numeric buffer
/// with its contiguity flag, or some other value the store does not interpret.
#[derive(Debug, Clone, PartialEq)]
pub enum AttrValue {
    Scalar(i64),
    BufI32 { data: Vec<i32>, contiguous: bool },
    BufI64 { data: Vec<i64>, contiguous: bool },
    Other,
}

/// The mathematical model of an [`AttrValue`]: the same tag with each buffer
/// abstracted to the sequence of its elements.
#[verifier::ext_equal]
pub enum AttrModel {
    Scalar(i64),
    BufI32 { data: Seq<i32>, contiguous: bool },
    BufI64 { data: Seq<i64>, contiguous: bool },
    Other,
}

impl View for AttrValue {
    type V = AttrModel;

    open spec fn view(&self) -> AttrModel {
        match self {
            AttrValue::Scalar(x) => AttrModel::Scalar(*x),
            AttrValue::BufI32 { data, contiguous } => AttrModel::BufI32 {
                data: data@,
                contiguous: *contiguous,
            },
            AttrValue::BufI64 { data, contiguous } => AttrModel::BufI64 {
                data: data@,
                contiguous: *contiguous,
            },
            AttrValue::Other => AttrModel::Other,
        }
    }
}

/// The declared element type of a modelled value: the tag a view request is
/// validated against. A scalar or other non-buffer value declares none.
pub open spec fn elem_type_of(v: AttrModel) -> Option<ElemType> {
    match v {
        AttrModel::BufI32 { .. } => Some(ElemType::I32),
        AttrModel::BufI64 { .. } => Some(ElemType::I64),
        _ => None,
    }
}

} // verus!
