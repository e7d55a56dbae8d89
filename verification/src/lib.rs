//! A write-once, typed attribute store with zero-copy buffer views.
//!
//! The store maps attribute names to opaque tagged values. Each name can be
//! assigned at most once; either side of a host/runtime boundary may read an
//! attribute back as an opaque value, and the host side may acquire a raw
//! contiguous typed view (shared or exclusive) into a buffer-valued attribute.

pub mod laws;
pub mod store;
pub mod value;
pub mod view;
