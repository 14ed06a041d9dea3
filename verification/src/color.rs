//! An opaque RGB triple: the value a zeroth-order palette element stores.

use vstd::prelude::*;

verus! {

/// An RGB color with one byte per channel.
#[derive(Clone, Copy, PartialEq, Eq, Structural, Debug)]
pub struct Color(pub u8, pub u8, pub u8);

} // verus!
