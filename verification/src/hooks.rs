//! The extension points a palette format plugs into the store: callbacks
//! fired right before the first slot of a page or of a line is prepared,
//! meant to seed per-group metadata. The default hooks do nothing.

use vstd::prelude::*;
use crate::address::Group;
use crate::metadata::MetadataMap;

verus! {

/// Strategy object supplied at construction time and called back by the
/// store, exactly once per group, when a page or a line is first touched by
/// a mutating operation. A hook may read and write labels and names freely,
/// but must leave every group's initialization flag as it found it: the
/// store itself records the group as initialized right after the hook runs.
pub trait PaletteHooks {
    /// Called before the first slot of a page group is prepared.
    fn prepare_new_page(&mut self, metadata: &mut MetadataMap, page: u8)
        requires
            old(metadata).wf(),
        ensures
            final(metadata).wf(),
            forall|g: Group| final(metadata).spec_is_initialized(g) == old(
                metadata,
            ).spec_is_initialized(g),
    ;

    /// Called before the first slot of a line group is prepared; always after
    /// the page hook of the same address, if that one was due.
    fn prepare_new_line(&mut self, metadata: &mut MetadataMap, page: u8, line: u8)
        requires
            old(metadata).wf(),
        ensures
            final(metadata).wf(),
            forall|g: Group| final(metadata).spec_is_initialized(g) == old(
                metadata,
            ).spec_is_initialized(g),
    ;
}

/// The default hooks: they leave the metadata untouched.
#[derive(Clone, Copy, PartialEq, Eq, Structural, Debug)]
pub struct NoOpHooks;

impl PaletteHooks for NoOpHooks {
    fn prepare_new_page(&mut self, metadata: &mut MetadataMap, page: u8) {
    }

    fn prepare_new_line(&mut self, metadata: &mut MetadataMap, page: u8, line: u8) {
    }
}

} // verus!
