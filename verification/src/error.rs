//! Errors of mutating palette operations. All of them are recoverable: no
//! operation leaves the store inconsistent after reporting one.

use vstd::prelude::*;
use crate::address::Address;
use crate::element::Reference;

verus! {

/// Failure modes of the palette store and of address or reference
/// resolution.
#[derive(Clone, Copy, PartialEq, Eq, Structural, Debug)]
pub enum Error {
    /// A color was to be added, but the palette already holds the maximum
    /// number of slots its bounds allow.
    MaxCellLimitExceeded,
    /// A color was to be set on a slot holding a derived (non-zeroth-order)
    /// element; replacing such an element takes an explicit element-set.
    CannotSetDerivedColor,
    /// An address outside the palette's current bounds was provided.
    InvalidAddress(Address),
    /// A reference was generated for an invalid address.
    InvalidReference(Reference),
    /// A reference component was invalid.
    InvalidReferenceComponent,
    /// A reference component was requested from an unresolved address.
    UnresolvedReferenceComponent,
    /// An empty address was provided to an operation requiring a color.
    EmptyAddress(Address),
    /// An element could not be created because the address was occupied.
    AddressInUse(Address),
}

impl Error {
    /// A short description of the failure.
    pub fn description(&self) -> (r: &'static str)
        ensures
            r@.len() > 0,
    {
        let r: &'static str = match self {
            Error::MaxCellLimitExceeded => "maximum number of color slots for palette exceeded",
            Error::CannotSetDerivedColor => "cannot assign color to a location containing a derived color value",
            Error::InvalidAddress(..) => "address lies outside of allowed range",
            Error::InvalidReference(..) => "cell reference lies outside of allowed range",
            Error::InvalidReferenceComponent => "reference component overflow or underflow",
            Error::UnresolvedReferenceComponent => "reference component did not resolve completely",
            Error::EmptyAddress(..) => "empty address provided to an operation requiring a color",
            Error::AddressInUse(..) => "the address is in use",
        };
        proof {
            reveal_strlit("maximum number of color slots for palette exceeded");
            reveal_strlit("cannot assign color to a location containing a derived color value");
            reveal_strlit("address lies outside of allowed range");
            reveal_strlit("cell reference lies outside of allowed range");
            reveal_strlit("reference component overflow or underflow");
            reveal_strlit("reference component did not resolve completely");
            reveal_strlit("empty address provided to an operation requiring a color");
            reveal_strlit("the address is in use");
        }
        r
    }
}

} // verus!
