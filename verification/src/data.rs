//! The palette store: an address-ordered map of slots, a wrap-around
//! allocation cursor, capacity bounds, per-group metadata, and the lazy
//! group-preparation protocol that fires a format's hooks exactly once per
//! page and line group.
//!
//! An address counts as occupied exactly when a slot is stored under it;
//! absence is the one notion of freeness both the capacity check and the
//! allocation scan use.

use vstd::prelude::*;
use crate::address::{
    capacity, lemma_capacity_positive, lemma_full_orbit_bounds_len, nth_next, Address,
    ColumnCount, Group, LineCount, PageCount, COLUMN_MAX, LINE_MAX, PAGE_MAX,
};
use crate::assoc::lemma_assoc_map_of;
use crate::color::Color;
use crate::element::{ColorElement, Slot};
use crate::error::Error;
use crate::hooks::{NoOpHooks, PaletteHooks};
use crate::metadata::{MetaView, MetadataMap};
use crate::slotmap::{lemma_sorted_implies_unique, SlotMap};

verus! {

/// Ghost record of how often each group's preparation hook has fired.
pub struct FireRecord {
    pub page_fires: Map<Group, nat>,
    pub line_fires: Map<Group, nat>,
}

/// Number of firings recorded for a group; zero when none is recorded.
pub open spec fn fire_count(m: Map<Group, nat>, g: Group) -> nat {
    if m.contains_key(g) {
        m[g]
    } else {
        0
    }
}

/// The record after one more firing for the group.
pub open spec fn bump(m: Map<Group, nat>, g: Group) -> Map<Group, nat> {
    m.insert(g, fire_count(m, g) + 1)
}

/// Resolution of an address to a color: absent addresses and exhausted
/// reference chains yield nothing; a direct element yields its color; a
/// derived element is followed through its back-reference.
pub open spec fn spec_resolve(
    m: Map<Address, ColorElement>,
    address: Address,
    fuel: nat,
) -> Option<Color>
    decreases fuel,
{
    if !m.contains_key(address) {
        None
    } else {
        match m[address] {
            ColorElement::ZerothOrder { color } => Some(color),
            ColorElement::FirstOrder { source } => if fuel == 0 {
                None
            } else {
                spec_resolve(m, source.address, (fuel - 1) as nat)
            },
        }
    }
}

/// A color set directly at an address resolves to exactly that color.
pub proof fn lemma_set_then_get(
    m: Map<Address, ColorElement>,
    address: Address,
    color: Color,
    fuel: nat,
)
    ensures
        spec_resolve(m.insert(address, ColorElement::ZerothOrder { color }), address, fuel)
            == Some(color),
{
}

/// Encapsulates a single palette: the slot map, the group metadata, the
/// allocation cursor, the capacity bounds, and the format hooks fired before
/// the first touch of each page and line group.
pub struct PaletteData<H: PaletteHooks> {
    /// A map assigning addresses to palette slots, iterated in address order.
    pub slotmap: SlotMap,
    /// Provided metadata for the palette's groups.
    pub metadata: MetadataMap,
    /// The cursor tracking where the search for the next available address
    /// starts.
    pub address_cursor: Address,
    /// The number of pages in the palette.
    pub page_count: PageCount,
    /// The default number of lines in each page.
    pub default_line_count: LineCount,
    /// The default number of columns in each line.
    pub default_column_count: ColumnCount,
    /// Called before an element is added to a new page, before any line hook
    /// for the same address.
    pub hooks: H,
    /// Ghost log of hook firings.
    pub fired: Ghost<FireRecord>,
}

impl<H: PaletteHooks> PaletteData<H> {
    /// Both component maps are well formed.
    pub open spec fn wf(&self) -> bool {
        self.slotmap.wf() && self.metadata.wf()
    }

    /// The occupied addresses and their elements.
    pub open spec fn slots(&self) -> Map<Address, ColorElement> {
        self.slotmap@
    }

    /// Total number of addresses inside the current bounds.
    pub open spec fn spec_capacity(&self) -> int {
        capacity(self.page_count, self.default_line_count, self.default_column_count)
    }

    /// Whether the group's preparation hook has run.
    pub open spec fn is_init(&self, g: Group) -> bool {
        self.metadata.spec_is_initialized(g)
    }

    /// Where the allocation scan starts: the cursor, or the zero address if
    /// shrunken bounds have left the cursor outside the space.
    pub open spec fn scan_start(&self) -> Address {
        if self.address_cursor.in_bounds(
            self.page_count,
            self.default_line_count,
            self.default_column_count,
        ) {
            self.address_cursor
        } else {
            Address { page: 0, line: 0, column: 0 }
        }
    }

    /// `a` is the first free address, `n` ring steps past the scan start.
    pub open spec fn is_first_free(&self, a: Address, n: nat) -> bool {
        &&& a == nth_next(
            self.scan_start(),
            self.page_count,
            self.default_line_count,
            self.default_column_count,
            n,
        )
        &&& !self.slots().contains_key(a)
        &&& forall|j: nat|
            j < n ==> self.slots().contains_key(
                #[trigger] nth_next(
                    self.scan_start(),
                    self.page_count,
                    self.default_line_count,
                    self.default_column_count,
                    j,
                ),
            )
    }

    /// The three bounds are those of `other`.
    pub open spec fn same_bounds(&self, other: &Self) -> bool {
        &&& self.page_count == other.page_count
        &&& self.default_line_count == other.default_line_count
        &&& self.default_column_count == other.default_column_count
    }

    /// How one mutating operation changes the metadata layer when it prepares
    /// `address`: afterwards both of the address's groups are initialized, no
    /// other group's flag has changed, and each of the two hooks has fired
    /// exactly once more than before precisely when its group was not yet
    /// initialized — the exactly-once protocol of group preparation.
    pub open spec fn prepared(pre: Self, post: Self, address: Address) -> bool {
        let pg = Group::Page { page: address.page };
        let lg = Group::Line { page: address.page, line: address.line };
        &&& post.is_init(pg)
        &&& post.is_init(lg)
        &&& forall|g: Group| g != pg && g != lg ==> post.is_init(g) == pre.is_init(g)
        &&& post.fired@.page_fires == (if pre.is_init(pg) {
            pre.fired@.page_fires
        } else {
            bump(pre.fired@.page_fires, pg)
        })
        &&& post.fired@.line_fires == (if pre.is_init(lg) {
            pre.fired@.line_fires
        } else {
            bump(pre.fired@.line_fires, lg)
        })
    }

    /// The allocator's result is determined: any two first-free witnesses
    /// name the same address.
    pub proof fn lemma_first_free_unique(self, a1: Address, n1: nat, a2: Address, n2: nat)
        requires
            self.is_first_free(a1, n1),
            self.is_first_free(a2, n2),
        ensures
            a1 == a2,
            n1 == n2,
    {
        if n1 < n2 {
            assert(self.slots().contains_key(
                nth_next(
                    self.scan_start(),
                    self.page_count,
                    self.default_line_count,
                    self.default_column_count,
                    n1,
                ),
            ));
        }
        if n2 < n1 {
            assert(self.slots().contains_key(
                nth_next(
                    self.scan_start(),
                    self.page_count,
                    self.default_line_count,
                    self.default_column_count,
                    n2,
                ),
            ));
        }
    }

    /// When the scan start itself is free — in particular in an empty store —
    /// the allocator returns exactly the scan start.
    pub proof fn lemma_first_free_at_start(self, a: Address, n: nat)
        requires
            self.is_first_free(a, n),
            !self.slots().contains_key(self.scan_start()),
        ensures
            a == self.scan_start(),
            n == 0,
    {
        if n > 0 {
            assert(self.slots().contains_key(
                nth_next(
                    self.scan_start(),
                    self.page_count,
                    self.default_line_count,
                    self.default_column_count,
                    0,
                ),
            ));
        }
    }

    /// An empty palette with the given hooks, the default (maximum) bounds,
    /// and the cursor at the zero address.
    pub fn new(hooks: H) -> (r: PaletteData<H>)
        ensures
            r.wf(),
            r.slots() == Map::<Address, ColorElement>::empty(),
            r.metadata@ == Map::<Group, MetaView>::empty(),
            r.address_cursor == (Address { page: 0, line: 0, column: 0 }),
            r.page_count == PAGE_MAX,
            r.default_line_count == LINE_MAX,
            r.default_column_count == COLUMN_MAX,
            r.hooks == hooks,
            r.fired@.page_fires == Map::<Group, nat>::empty(),
            r.fired@.line_fires == Map::<Group, nat>::empty(),
    {
        PaletteData {
            slotmap: SlotMap::new(),
            metadata: MetadataMap::new(),
            address_cursor: Address::new(0, 0, 0),
            page_count: PAGE_MAX,
            default_line_count: LINE_MAX,
            default_column_count: COLUMN_MAX,
            hooks,
            fired: Ghost(
                FireRecord {
                    page_fires: Map::<Group, nat>::empty(),
                    line_fires: Map::<Group, nat>::empty(),
                },
            ),
        }
    }

    /// Number of occupied addresses.
    pub fn len(&self) -> (r: usize)
        requires
            self.wf(),
        ensures
            r == self.slots().len(),
    {
        self.slotmap.len()
    }

    /// Pure bounds test of the address against the current page, line and
    /// column counts; occupancy is not consulted.
    pub fn check_address(&self, address: Address) -> (r: bool)
        ensures
            r == address.in_bounds(
                self.page_count,
                self.default_line_count,
                self.default_column_count,
            ),
    {
        address.page < self.page_count && address.line < self.default_line_count
            && address.column < self.default_column_count
    }

    /// Fires the page hook for the address's page group where it has not
    /// fired yet, and marks the group initialized.
    fn prepare_page_group(&mut self, address: Address)
        requires
            old(self).wf(),
        ensures
            final(self).wf(),
            final(self).is_init(Group::Page { page: address.page }),
            forall|g: Group|
                g != (Group::Page { page: address.page }) ==> final(self).is_init(g) == old(self).is_init(g),
            final(self).fired@.page_fires == (if old(self).is_init(
                Group::Page { page: address.page },
            ) {
                old(self).fired@.page_fires
            } else {
                bump(old(self).fired@.page_fires, Group::Page { page: address.page })
            }),
            final(self).fired@.line_fires == old(self).fired@.line_fires,
            final(self).slotmap == old(self).slotmap,
            final(self).address_cursor == old(self).address_cursor,
            final(self).same_bounds(old(self)),
    {
        let pg = address.page_group();
        if !self.metadata.is_initialized(pg) {
            let ghost m0 = self.metadata;
            self.hooks.prepare_new_page(&mut self.metadata, address.page);
            let ghost m1 = self.metadata;
            self.metadata.set_initialized(pg, true);
            proof {
                self.fired@ = FireRecord {
                    page_fires: bump(self.fired@.page_fires, pg),
                    line_fires: self.fired@.line_fires,
                };
                assert forall|g: Group| g != pg implies self.metadata.spec_is_initialized(g)
                    == m0.spec_is_initialized(g) by {
                    assert(m1.spec_is_initialized(g) == m0.spec_is_initialized(g));
                }
            }
        }
    }

    /// Fires the line hook for the address's line group where it has not
    /// fired yet, and marks the group initialized.
    fn prepare_line_group(&mut self, address: Address)
        requires
            old(self).wf(),
        ensures
            final(self).wf(),
            final(self).is_init(Group::Line { page: address.page, line: address.line }),
            forall|g: Group|
                g != (Group::Line { page: address.page, line: address.line }) ==> final(self).is_init(g) == old(self).is_init(g),
            final(self).fired@.line_fires == (if old(self).is_init(
                Group::Line { page: address.page, line: address.line },
            ) {
                old(self).fired@.line_fires
            } else {
                bump(
                    old(self).fired@.line_fires,
                    Group::Line { page: address.page, line: address.line },
                )
            }),
            final(self).fired@.page_fires == old(self).fired@.page_fires,
            final(self).slotmap == old(self).slotmap,
            final(self).address_cursor == old(self).address_cursor,
            final(self).same_bounds(old(self)),
    {
        let lg = address.line_group();
        if !self.metadata.is_initialized(lg) {
            let ghost m0 = self.metadata;
            self.hooks.prepare_new_line(&mut self.metadata, address.page, address.line);
            let ghost m1 = self.metadata;
            self.metadata.set_initialized(lg, true);
            proof {
                self.fired@ = FireRecord {
                    page_fires: self.fired@.page_fires,
                    line_fires: bump(self.fired@.line_fires, lg),
                };
                assert forall|g: Group| g != lg implies self.metadata.spec_is_initialized(g)
                    == m0.spec_is_initialized(g) by {
                    assert(m1.spec_is_initialized(g) == m0.spec_is_initialized(g));
                }
            }
        }
    }

    /// Fires the page and line hooks for the address's groups where they have
    /// not fired yet, and marks the groups initialized; the page hook always
    /// runs before the line hook.
    fn prepare_address(&mut self, address: Address)
        requires
            old(self).wf(),
        ensures
            final(self).wf(),
            Self::prepared(*old(self), *final(self), address),
            final(self).slotmap == old(self).slotmap,
            final(self).address_cursor == old(self).address_cursor,
            final(self).same_bounds(old(self)),
    {
        let ghost pg = Group::Page { page: address.page };
        let ghost lg = Group::Line { page: address.page, line: address.line };
        self.prepare_page_group(address);
        let ghost mid = *self;
        self.prepare_line_group(address);
        proof {
            assert(mid.is_init(lg) == old(self).is_init(lg));
            assert(self.is_init(pg) == mid.is_init(pg));
            assert forall|g: Group| g != pg && g != lg implies self.is_init(g) == old(self).is_init(g) by {
                assert(self.is_init(g) == mid.is_init(g));
                assert(mid.is_init(g) == old(self).is_init(g));
            }
        }
    }

    /// The next available address at or after the cursor, without moving the
    /// cursor. Fails exactly when the occupied count has reached the
    /// capacity; otherwise the ring property of the successor bounds the scan
    /// by one traversal of the space.
    #[verifier::rlimit(30)]
    pub fn next_free_address(&self) -> (r: Result<Address, Error>)
        requires
            self.wf(),
        ensures
            match r {
                Ok(a) => self.slots().len() < self.spec_capacity() && exists|n: nat|
                    n < self.spec_capacity() && #[trigger] self.is_first_free(a, n),
                Err(e) => e == Error::MaxCellLimitExceeded && self.slots().len()
                    >= self.spec_capacity(),
            },
    {
        proof {
            assert(self.page_count as int * self.default_line_count as int <= 0xffff
                && self.page_count as int * self.default_line_count as int
                * self.default_column_count as int <= 0xffffff) by (nonlinear_arith)
                requires
                    self.page_count <= 255,
                    self.default_line_count <= 255,
                    self.default_column_count <= 255,
            {}
        }
        let cap: usize = self.page_count as usize * self.default_line_count as usize
            * self.default_column_count as usize;
        if self.slotmap.len() >= cap {
            return Err(Error::MaxCellLimitExceeded);
        }
        proof {
            lemma_capacity_positive(
                self.page_count,
                self.default_line_count,
                self.default_column_count,
            );
        }
        let mut address = if self.check_address(self.address_cursor) {
            self.address_cursor
        } else {
            Address::new(0, 0, 0)
        };
        let ghost start = self.scan_start();
        let ghost mut n: nat = 0;
        loop
            invariant
                self.wf(),
                cap == self.spec_capacity(),
                self.slots().len() < cap,
                start == self.scan_start(),
                start.in_bounds(
                    self.page_count,
                    self.default_line_count,
                    self.default_column_count,
                ),
                n < cap,
                address == nth_next(
                    start,
                    self.page_count,
                    self.default_line_count,
                    self.default_column_count,
                    n,
                ),
                forall|j: nat|
                    j < n ==> self.slots().contains_key(
                        #[trigger] nth_next(
                            start,
                            self.page_count,
                            self.default_line_count,
                            self.default_column_count,
                            j,
                        ),
                    ),
            decreases cap - n,
        {
            if !self.slotmap.contains_key(address) {
                proof {
                    assert(exists|k: nat|
                        k < self.spec_capacity() && #[trigger] self.is_first_free(address, k)) by {
                        assert(n < self.spec_capacity() && self.is_first_free(address, n));
                    }
                    let rr = Ok::<Address, Error>(address);
                    assert(rr is Ok && rr->Ok_0 == address);
                    assert(self.slots().len() < self.spec_capacity());
                    assert(exists|k: nat|
                        k < self.spec_capacity() && #[trigger] self.is_first_free(rr->Ok_0, k));
                }
                return Ok(address);
            }
            proof {
                lemma_sorted_implies_unique(self.slotmap.entries@);
                lemma_assoc_map_of(self.slotmap.entries@, |s: Slot| s.element);
                if n + 1 == cap {
                    assert forall|j: nat| j < cap implies self.slots().contains_key(
                        #[trigger] nth_next(
                            start,
                            self.page_count,
                            self.default_line_count,
                            self.default_column_count,
                            j,
                        ),
                    ) by {
                        if j < n {
                        } else {
                            assert(j == n);
                        }
                    }
                    lemma_full_orbit_bounds_len(
                        self.slots(),
                        start,
                        self.page_count,
                        self.default_line_count,
                        self.default_column_count,
                    );
                    assert(false);
                }
            }
            address = address.wrapped_next(
                self.page_count,
                self.default_line_count,
                self.default_column_count,
            );
            proof {
                n = n + 1;
            }
        }
    }

    /// The next available address, also advancing the cursor to that
    /// address's successor so repeated allocation walks the space round-robin.
    /// Fails, leaving the cursor alone, when the palette is full.
    pub fn next_free_address_advance_cursor(&mut self) -> (r: Result<Address, Error>)
        requires
            old(self).wf(),
        ensures
            final(self).wf(),
            final(self).slotmap == old(self).slotmap,
            final(self).metadata == old(self).metadata,
            final(self).hooks == old(self).hooks,
            final(self).fired == old(self).fired,
            final(self).same_bounds(old(self)),
            match r {
                Ok(a) => old(self).slots().len() < old(self).spec_capacity() && (exists|n: nat|
                    n < old(self).spec_capacity() && #[trigger] old(self).is_first_free(a, n))
                    && final(self).address_cursor == a.spec_wrapped_next(
                    old(self).page_count,
                    old(self).default_line_count,
                    old(self).default_column_count,
                ),
                Err(e) => e == Error::MaxCellLimitExceeded && old(self).slots().len()
                    >= old(self).spec_capacity() && *final(self) == *old(self),
            },
    {
        match self.next_free_address() {
            Ok(address) => {
                self.address_cursor = address.wrapped_next(
                    self.page_count,
                    self.default_line_count,
                    self.default_column_count,
                );
                Ok(address)
            },
            Err(e) => Err(e),
        }
    }

    /// Allocates the next free address, stores the slot there, prepares the
    /// address's groups, and returns the address. Fails with
    /// `MaxCellLimitExceeded`, changing nothing, when the occupied count has
    /// reached the capacity.
    pub fn add_slot(&mut self, new_slot: Slot) -> (r: Result<Address, Error>)
        requires
            old(self).wf(),
        ensures
            final(self).wf(),
            final(self).same_bounds(old(self)),
            match r {
                Ok(a) => {
                    &&& old(self).slots().len() < old(self).spec_capacity()
                    &&& exists|n: nat|
                        n < old(self).spec_capacity() && #[trigger] old(self).is_first_free(a, n)
                    &&& final(self).slots() == old(self).slots().insert(a, new_slot.element)
                    &&& final(self).slots().len() == old(self).slots().len() + 1
                    &&& final(self).address_cursor == a.spec_wrapped_next(
                        old(self).page_count,
                        old(self).default_line_count,
                        old(self).default_column_count,
                    )
                    &&& Self::prepared(*old(self), *final(self), a)
                },
                Err(e) => e == Error::MaxCellLimitExceeded && old(self).slots().len()
                    >= old(self).spec_capacity() && *final(self) == *old(self),
            },
    {
        let address = match self.next_free_address_advance_cursor() {
            Ok(a) => a,
            Err(e) => {
                return Err(e);
            },
        };
        let ghost mid = *self;
        self.slotmap.set(address, new_slot);
        self.prepare_address(address);
        proof {
            let n = choose|n: nat|
                n < old(self).spec_capacity() && old(self).is_first_free(address, n);
            assert(!old(self).slots().contains_key(address));
            lemma_sorted_implies_unique(old(self).slotmap.entries@);
            lemma_assoc_map_of(old(self).slotmap.entries@, |s: Slot| s.element);
            assert(self.slots().dom() =~= old(self).slots().dom().insert(address));
        }
        Ok(address)
    }

    /// Adds a new element at the nearest free address after the cursor and
    /// returns that address; fails when the palette is full.
    pub fn add_element(&mut self, new_element: ColorElement) -> (r: Result<Address, Error>)
        requires
            old(self).wf(),
        ensures
            final(self).wf(),
            final(self).same_bounds(old(self)),
            match r {
                Ok(a) => {
                    &&& old(self).slots().len() < old(self).spec_capacity()
                    &&& exists|n: nat|
                        n < old(self).spec_capacity() && #[trigger] old(self).is_first_free(a, n)
                    &&& final(self).slots() == old(self).slots().insert(a, new_element)
                    &&& final(self).slots().len() == old(self).slots().len() + 1
                    &&& Self::prepared(*old(self), *final(self), a)
                },
                Err(e) => e == Error::MaxCellLimitExceeded && old(self).slots().len()
                    >= old(self).spec_capacity() && *final(self) == *old(self),
            },
    {
        self.add_slot(Slot::new(new_element))
    }

    /// Adds a new direct color at the nearest free address after the cursor
    /// and returns that address; fails when the palette is full.
    pub fn add_color(&mut self, new_color: Color) -> (r: Result<Address, Error>)
        requires
            old(self).wf(),
        ensures
            final(self).wf(),
            final(self).same_bounds(old(self)),
            match r {
                Ok(a) => {
                    &&& old(self).slots().len() < old(self).spec_capacity()
                    &&& exists|n: nat|
                        n < old(self).spec_capacity() && #[trigger] old(self).is_first_free(a, n)
                    &&& final(self).slots() == old(self).slots().insert(
                        a,
                        ColorElement::ZerothOrder { color: new_color },
                    )
                    &&& final(self).slots().len() == old(self).slots().len() + 1
                    &&& Self::prepared(*old(self), *final(self), a)
                },
                Err(e) => e == Error::MaxCellLimitExceeded && old(self).slots().len()
                    >= old(self).spec_capacity() && *final(self) == *old(self),
            },
    {
        self.add_element(ColorElement::ZerothOrder { color: new_color })
    }

    /// The color the address resolves to: nothing when the address is absent
    /// or its reference chain does not reach a direct color; callers cannot
    /// distinguish an absent slot from an unresolved one through this call.
    pub fn get_color(&self, address: Address) -> (r: Option<Color>)
        requires
            self.wf(),
        ensures
            r == spec_resolve(self.slots(), address, self.slots().len()),
    {
        let mut fuel = self.slotmap.len();
        let mut a = address;
        loop
            invariant
                self.wf(),
                spec_resolve(self.slots(), address, self.slots().len()) == spec_resolve(
                    self.slots(),
                    a,
                    fuel as nat,
                ),
            decreases fuel,
        {
            match self.slotmap.get(a) {
                None => {
                    return None;
                },
                Some(slot) => {
                    match &slot.element {
                        ColorElement::ZerothOrder { color } => {
                            return Some(*color);
                        },
                        ColorElement::FirstOrder { source } => {
                            if fuel == 0 {
                                return None;
                            }
                            fuel = fuel - 1;
                            a = source.address;
                        },
                    }
                },
            }
        }
    }

    /// Sets a direct color at the address. Fails with `InvalidAddress` when
    /// the address violates the current bounds; otherwise the address's
    /// groups are prepared, and then: an empty address receives a new direct
    /// slot and nothing is returned as the previous color; an order-zero slot
    /// has its element replaced and its previous color returned; a slot of
    /// positive order is left unchanged and the call fails with
    /// `CannotSetDerivedColor`.
    pub fn set_color(&mut self, address: Address, new_color: Color) -> (r: Result<
        Option<Color>,
        Error,
    >)
        requires
            old(self).wf(),
        ensures
            final(self).wf(),
            final(self).same_bounds(old(self)),
            final(self).address_cursor == old(self).address_cursor,
            !address.in_bounds(
                old(self).page_count,
                old(self).default_line_count,
                old(self).default_column_count,
            ) ==> r == Err::<Option<Color>, Error>(Error::InvalidAddress(address)) && *final(self) == *old(self),
            address.in_bounds(
                old(self).page_count,
                old(self).default_line_count,
                old(self).default_column_count,
            ) ==> {
                &&& Self::prepared(*old(self), *final(self), address)
                &&& (if !old(self).slots().contains_key(address) {
                    r == Ok::<Option<Color>, Error>(None) && final(self).slots() == old(self).slots().insert(address, ColorElement::ZerothOrder { color: new_color })
                } else if old(self).slots()[address].spec_order() == 0 {
                    r == Ok::<Option<Color>, Error>(old(self).slots()[address].spec_current_color()) && final(self).slots() == old(self).slots().insert(
                        address,
                        ColorElement::ZerothOrder { color: new_color },
                    )
                } else {
                    r == Err::<Option<Color>, Error>(Error::CannotSetDerivedColor) && final(self).slots() == old(self).slots()
                })
            },
    {
        if !self.check_address(address) {
            return Err(Error::InvalidAddress(address));
        }
        self.prepare_address(address);
        let new_element = ColorElement::ZerothOrder { color: new_color };
        match self.slotmap.get(address) {
            Some(slot) => {
                if slot.get_order() != 0 {
                    return Err(Error::CannotSetDerivedColor);
                }
                let prev = slot.get_color();
                self.slotmap.set(address, Slot::new(new_element));
                Ok(prev)
            },
            None => {
                self.slotmap.set(address, Slot::new(new_element));
                Ok(None)
            },
        }
    }

    /// Sets the element at the address, whatever the order of the element
    /// already there: replacement of derived elements is reserved to this
    /// explicit operation. Fails only with `InvalidAddress` when the address
    /// violates the current bounds; otherwise the previous element, if any,
    /// is returned.
    pub fn set_element(&mut self, address: Address, new_element: ColorElement) -> (r: Result<
        Option<ColorElement>,
        Error,
    >)
        requires
            old(self).wf(),
        ensures
            final(self).wf(),
            final(self).same_bounds(old(self)),
            final(self).address_cursor == old(self).address_cursor,
            !address.in_bounds(
                old(self).page_count,
                old(self).default_line_count,
                old(self).default_column_count,
            ) ==> r == Err::<Option<ColorElement>, Error>(Error::InvalidAddress(address)) && *final(self) == *old(self),
            address.in_bounds(
                old(self).page_count,
                old(self).default_line_count,
                old(self).default_column_count,
            ) ==> {
                &&& Self::prepared(*old(self), *final(self), address)
                &&& final(self).slots() == old(self).slots().insert(address, new_element)
                &&& (if old(self).slots().contains_key(address) {
                    r == Ok::<Option<ColorElement>, Error>(Some(old(self).slots()[address]))
                } else {
                    r == Ok::<Option<ColorElement>, Error>(None)
                })
            },
    {
        if !self.check_address(address) {
            return Err(Error::InvalidAddress(address));
        }
        self.prepare_address(address);
        match self.slotmap.get(address) {
            Some(slot) => {
                let prev = slot.element;
                self.slotmap.set(address, Slot::new(new_element));
                Ok(Some(prev))
            },
            None => {
                self.slotmap.set(address, Slot::new(new_element));
                Ok(None)
            },
        }
    }

    /// The label associated with the group, if it has one.
    pub fn get_label(&self, group: Group) -> (r: Option<&str>)
        requires
            self.wf(),
        ensures
            match r {
                Some(l) => self.metadata.spec_entry(group).format_label == Some(l@),
                None => self.metadata.spec_entry(group).format_label is None,
            },
    {
        self.metadata.get_label(group)
    }

    /// Sets the label for the group, creating its entry if absent.
    pub fn set_label(&mut self, group: Group, format_label: String)
        requires
            old(self).wf(),
        ensures
            final(self).wf(),
            final(self).metadata@ == old(self).metadata.spec_upsert(
                group,
                MetaView {
                    format_label: Some(format_label@),
                    ..old(self).metadata.spec_entry(group)
                },
            ),
            final(self).slotmap == old(self).slotmap,
            final(self).address_cursor == old(self).address_cursor,
            final(self).same_bounds(old(self)),
            final(self).hooks == old(self).hooks,
            final(self).fired == old(self).fired,
    {
        self.metadata.set_label(group, format_label);
    }

    /// The name associated with the group, if it has one.
    pub fn get_name(&self, group: Group) -> (r: Option<&str>)
        requires
            self.wf(),
        ensures
            match r {
                Some(n) => self.metadata.spec_entry(group).name == Some(n@),
                None => self.metadata.spec_entry(group).name is None,
            },
    {
        self.metadata.get_name(group)
    }

    /// Sets the name for the group, creating its entry if absent.
    pub fn set_name(&mut self, group: Group, name: String)
        requires
            old(self).wf(),
        ensures
            final(self).wf(),
            final(self).metadata@ == old(self).metadata.spec_upsert(
                group,
                MetaView { name: Some(name@), ..old(self).metadata.spec_entry(group) },
            ),
            final(self).slotmap == old(self).slotmap,
            final(self).address_cursor == old(self).address_cursor,
            final(self).same_bounds(old(self)),
            final(self).hooks == old(self).hooks,
            final(self).fired == old(self).fired,
    {
        self.metadata.set_name(group, name);
    }

    /// Sets the preparation flag for the group, creating its entry if absent.
    pub fn set_initialized(&mut self, group: Group, value: bool)
        requires
            old(self).wf(),
        ensures
            final(self).wf(),
            final(self).metadata@ == old(self).metadata.spec_upsert(
                group,
                MetaView { initialized: value, ..old(self).metadata.spec_entry(group) },
            ),
            final(self).slotmap == old(self).slotmap,
            final(self).address_cursor == old(self).address_cursor,
            final(self).same_bounds(old(self)),
            final(self).hooks == old(self).hooks,
            final(self).fired == old(self).fired,
    {
        self.metadata.set_initialized(group, value);
    }
}

impl Default for PaletteData<NoOpHooks> {
    /// An empty palette with no-op hooks and the default bounds.
    fn default() -> (r: PaletteData<NoOpHooks>)
        ensures
            r.wf(),
            r.slots() == Map::<Address, ColorElement>::empty(),
            r.metadata@ == Map::<Group, MetaView>::empty(),
            r.address_cursor == (Address { page: 0, line: 0, column: 0 }),
            r.page_count == PAGE_MAX,
            r.default_line_count == LINE_MAX,
            r.default_column_count == COLUMN_MAX,
            r.fired@.page_fires == Map::<Group, nat>::empty(),
            r.fired@.line_fires == Map::<Group, nat>::empty(),
    {
        PaletteData::new(NoOpHooks)
    }
}

} // verus!
