//! Color elements and the slots that hold them. An element is either a
//! directly stored (zeroth-order) color or a derived element whose color is
//! computed from another slot, reached through a non-owning address-based
//! back-reference and resolved by the owning store.

use vstd::prelude::*;
use crate::address::Address;
use crate::color::Color;

verus! {

/// A non-owning back-reference from a derived element to its source slot.
/// The referenced slot is looked up in the owning store when the derived
/// element's color is resolved; nothing is copied or shared.
#[derive(Clone, Copy, PartialEq, Eq, Structural, Debug)]
pub struct Reference {
    pub address: Address,
}

/// One element of the palette: a literal color, or a color derived from the
/// element at another address.
#[derive(Clone, Copy, PartialEq, Eq, Structural, Debug)]
pub enum ColorElement {
    /// A directly stored color. Its order is zero.
    ZerothOrder { color: Color },
    /// A color taken from the slot the reference points at. Its order is one.
    FirstOrder { source: Reference },
}

impl ColorElement {
    /// Order of the element: zero for a directly stored color, positive for
    /// a derived one. Only order-zero elements may be overwritten by a plain
    /// color-set operation.
    pub open spec fn spec_order(self) -> int {
        match self {
            ColorElement::ZerothOrder { .. } => 0,
            ColorElement::FirstOrder { .. } => 1,
        }
    }

    /// The color the element carries on its own, without consulting the
    /// owning store: the literal color for a zeroth-order element, and
    /// nothing for a derived one, which is unresolved in isolation.
    pub open spec fn spec_current_color(self) -> Option<Color> {
        match self {
            ColorElement::ZerothOrder { color } => Some(color),
            ColorElement::FirstOrder { .. } => None,
        }
    }

    /// Order of the element; zero exactly for a directly stored color.
    pub fn order(&self) -> (r: usize)
        ensures
            r == self.spec_order(),
    {
        match self {
            ColorElement::ZerothOrder { .. } => 0,
            ColorElement::FirstOrder { .. } => 1,
        }
    }

    /// The element's own color, if it stores one literally.
    pub fn current_color(&self) -> (r: Option<Color>)
        ensures
            r == self.spec_current_color(),
    {
        match self {
            ColorElement::ZerothOrder { color } => Some(*color),
            ColorElement::FirstOrder { .. } => None,
        }
    }
}

/// A mutable cell owning exactly one color element. A slot's identity is the
/// address it is stored under in the palette's map; only its element changes.
#[derive(Clone, Copy, PartialEq, Eq, Structural, Debug)]
pub struct Slot {
    pub element: ColorElement,
}

impl Slot {
    pub fn new(element: ColorElement) -> (s: Slot)
        ensures
            s == (Slot { element }),
    {
        Slot { element }
    }

    /// The contained element's own color, if it stores one literally.
    pub fn get_color(&self) -> (r: Option<Color>)
        ensures
            r == self.element.spec_current_color(),
    {
        self.element.current_color()
    }

    /// The contained element's order.
    pub fn get_order(&self) -> (r: usize)
        ensures
            r == self.element.spec_order(),
    {
        self.element.order()
    }
}

} // verus!
