use rampeditor::address::{Address, Group};
use rampeditor::color::Color;
use rampeditor::data::PaletteData;
use rampeditor::element::{ColorElement, Reference, Slot};
use rampeditor::error::Error;
use rampeditor::hooks::{NoOpHooks, PaletteHooks};
use rampeditor::metadata::MetadataMap;

fn addr(page: u8, line: u8, column: u8) -> Address {
    Address { page, line, column }
}

#[test]
fn check_address_respects_bounds() {
    let mut dat: PaletteData<NoOpHooks> = Default::default();
    dat.page_count = 2;
    dat.default_line_count = 3;
    dat.default_column_count = 4;
    for page in 0..2 {
        for line in 0..3 {
            for column in 0..4 {
                assert!(dat.check_address(addr(page, line, column)));
            }
        }
    }
    assert!(!dat.check_address(addr(2, 0, 0)));
    assert!(!dat.check_address(addr(0, 3, 0)));
    assert!(!dat.check_address(addr(0, 0, 4)));
    assert!(!dat.check_address(addr(2, 3, 4)));
}

#[test]
fn wrapped_next_ring_closure() {
    let start = addr(1, 2, 3);
    let capacity = 2 * 3 * 4;
    let mut seen = vec![start];
    let mut current = start;
    for _ in 0..capacity {
        current = current.wrapped_next(2, 3, 4);
        seen.push(current);
    }
    assert_eq!(current, start);
    // no address repeats before the cycle completes
    for i in 0..capacity {
        for j in (i + 1)..capacity {
            assert_ne!(seen[i], seen[j]);
        }
    }
}

#[test]
fn wrapped_next_rolls_columns_lines_pages() {
    assert_eq!(addr(0, 0, 2).wrapped_next(2, 3, 4), addr(0, 0, 3));
    assert_eq!(addr(0, 0, 3).wrapped_next(2, 3, 4), addr(0, 1, 0));
    assert_eq!(addr(0, 2, 3).wrapped_next(2, 3, 4), addr(1, 0, 0));
    assert_eq!(addr(1, 2, 3).wrapped_next(2, 3, 4), addr(0, 0, 0));
}

#[test]
fn allocation_succeeds_exactly_capacity_times() {
    let mut dat: PaletteData<NoOpHooks> = Default::default();
    dat.page_count = 2;
    dat.default_line_count = 2;
    dat.default_column_count = 2;
    for i in 0..8u8 {
        let result = dat.add_color(Color(i, i, i));
        assert!(result.is_ok());
    }
    assert_eq!(dat.len(), 8);
    let overflow = dat.add_color(Color(9, 9, 9));
    assert_eq!(overflow, Err(Error::MaxCellLimitExceeded));
    assert_eq!(dat.len(), 8);
}

#[test]
fn set_color_on_empty_address_returns_none() {
    let mut dat: PaletteData<NoOpHooks> = Default::default();
    let previous = dat.set_color(addr(0, 2, 4), Color(10, 20, 30));
    assert_eq!(previous, Ok(None));
    assert_eq!(dat.get_color(addr(0, 2, 4)), Some(Color(10, 20, 30)));
}

#[test]
fn set_color_replaces_zeroth_order_and_returns_previous() {
    let mut dat: PaletteData<NoOpHooks> = Default::default();
    assert_eq!(dat.set_color(addr(0, 0, 0), Color(1, 2, 3)), Ok(None));
    let previous = dat.set_color(addr(0, 0, 0), Color(4, 5, 6));
    assert_eq!(previous, Ok(Some(Color(1, 2, 3))));
    assert_eq!(dat.get_color(addr(0, 0, 0)), Some(Color(4, 5, 6)));
}

#[test]
fn set_color_on_derived_element_fails_without_mutation() {
    let mut dat: PaletteData<NoOpHooks> = Default::default();
    assert_eq!(dat.set_color(addr(0, 0, 1), Color(255, 0, 0)), Ok(None));
    let derived = ColorElement::FirstOrder { source: Reference { address: addr(0, 0, 1) } };
    assert_eq!(dat.set_element(addr(0, 0, 0), derived), Ok(None));
    assert_eq!(dat.get_color(addr(0, 0, 0)), Some(Color(255, 0, 0)));
    let result = dat.set_color(addr(0, 0, 0), Color(0, 0, 255));
    assert_eq!(result, Err(Error::CannotSetDerivedColor));
    assert_eq!(dat.get_color(addr(0, 0, 0)), Some(Color(255, 0, 0)));
}

#[test]
fn set_color_outside_bounds_fails() {
    let mut dat: PaletteData<NoOpHooks> = Default::default();
    dat.page_count = 1;
    dat.default_line_count = 1;
    dat.default_column_count = 1;
    let result = dat.set_color(addr(0, 0, 1), Color(1, 1, 1));
    assert_eq!(result, Err(Error::InvalidAddress(addr(0, 0, 1))));
    assert_eq!(dat.len(), 0);
}

#[test]
fn set_element_replaces_any_order() {
    let mut dat: PaletteData<NoOpHooks> = Default::default();
    let derived = ColorElement::FirstOrder { source: Reference { address: addr(0, 0, 7) } };
    assert_eq!(dat.set_element(addr(0, 0, 0), derived), Ok(None));
    let direct = ColorElement::ZerothOrder { color: Color(7, 8, 9) };
    let previous = dat.set_element(addr(0, 0, 0), direct);
    assert_eq!(previous, Ok(Some(derived)));
    assert_eq!(dat.get_color(addr(0, 0, 0)), Some(Color(7, 8, 9)));
}

#[test]
fn get_color_unresolved_reference_chain_is_none() {
    let mut dat: PaletteData<NoOpHooks> = Default::default();
    // a cycle of two derived elements never resolves
    let to_b = ColorElement::FirstOrder { source: Reference { address: addr(0, 0, 1) } };
    let to_a = ColorElement::FirstOrder { source: Reference { address: addr(0, 0, 0) } };
    assert_eq!(dat.set_element(addr(0, 0, 0), to_b), Ok(None));
    assert_eq!(dat.set_element(addr(0, 0, 1), to_a), Ok(None));
    assert_eq!(dat.get_color(addr(0, 0, 0)), None);
    assert_eq!(dat.get_color(addr(0, 0, 1)), None);
}

#[test]
fn capacity_one_store_allocates_once() {
    let mut dat: PaletteData<NoOpHooks> = Default::default();
    dat.page_count = 1;
    dat.default_line_count = 1;
    dat.default_column_count = 1;
    assert_eq!(dat.add_color(Color(0, 0, 0)), Ok(addr(0, 0, 0)));
    assert_eq!(dat.add_color(Color(0, 0, 0)), Err(Error::MaxCellLimitExceeded));
    assert_eq!(dat.len(), 1);
}

#[test]
fn add_colors_fill_addresses_in_order() {
    let mut dat: PaletteData<NoOpHooks> = Default::default();
    assert_eq!(dat.add_color(Color(255, 0, 0)), Ok(addr(0, 0, 0)));
    assert_eq!(dat.add_color(Color(0, 255, 0)), Ok(addr(0, 0, 1)));
    assert_eq!(dat.add_color(Color(0, 0, 255)), Ok(addr(0, 0, 2)));
    assert_eq!(dat.len(), 3);
    assert_eq!(dat.get_color(addr(0, 0, 0)), Some(Color(255, 0, 0)));
    assert_eq!(dat.get_color(addr(0, 0, 1)), Some(Color(0, 255, 0)));
    assert_eq!(dat.get_color(addr(0, 0, 2)), Some(Color(0, 0, 255)));
    assert_eq!(dat.get_color(addr(0, 2, 4)), None);
}

#[test]
fn next_free_address_skips_occupied_without_moving_cursor() {
    let mut dat: PaletteData<NoOpHooks> = Default::default();
    assert_eq!(dat.set_color(addr(0, 0, 0), Color(1, 1, 1)), Ok(None));
    assert_eq!(dat.next_free_address(), Ok(addr(0, 0, 1)));
    // the cursor did not advance: scanning again gives the same address
    assert_eq!(dat.next_free_address(), Ok(addr(0, 0, 1)));
}

#[test]
fn allocation_walks_round_robin() {
    let mut dat: PaletteData<NoOpHooks> = Default::default();
    assert_eq!(dat.add_color(Color(1, 0, 0)), Ok(addr(0, 0, 0)));
    assert_eq!(dat.add_color(Color(2, 0, 0)), Ok(addr(0, 0, 1)));
    assert_eq!(dat.set_element(
        addr(0, 0, 2),
        ColorElement::ZerothOrder { color: Color(3, 0, 0) },
    ), Ok(None));
    // the cursor sits at (0, 0, 2), which is occupied, so the scan moves on
    assert_eq!(dat.add_color(Color(4, 0, 0)), Ok(addr(0, 0, 3)));
}

struct CountingHooks {
    pages: u32,
    lines: u32,
}

impl PaletteHooks for CountingHooks {
    fn prepare_new_page(&mut self, _metadata: &mut MetadataMap, _page: u8) {
        self.pages += 1;
    }

    fn prepare_new_line(&mut self, _metadata: &mut MetadataMap, _page: u8, _line: u8) {
        self.lines += 1;
    }
}

#[test]
fn hooks_fire_once_per_group() {
    let mut dat = PaletteData::new(CountingHooks { pages: 0, lines: 0 });
    assert_eq!(dat.set_color(addr(0, 0, 0), Color(1, 1, 1)), Ok(None));
    assert_eq!(dat.hooks.pages, 1);
    assert_eq!(dat.hooks.lines, 1);
    // a second address in the same page and line fires nothing
    assert_eq!(dat.set_color(addr(0, 0, 1), Color(2, 2, 2)), Ok(None));
    assert_eq!(dat.hooks.pages, 1);
    assert_eq!(dat.hooks.lines, 1);
    // a new line in the same page fires only the line hook
    assert_eq!(dat.set_color(addr(0, 1, 0), Color(3, 3, 3)), Ok(None));
    assert_eq!(dat.hooks.pages, 1);
    assert_eq!(dat.hooks.lines, 2);
    // a new page fires both
    assert_eq!(dat.set_color(addr(1, 0, 0), Color(4, 4, 4)), Ok(None));
    assert_eq!(dat.hooks.pages, 2);
    assert_eq!(dat.hooks.lines, 3);
}

#[test]
fn labels_and_names_upsert_per_group() {
    let mut dat: PaletteData<NoOpHooks> = Default::default();
    assert_eq!(dat.get_label(Group::All), None);
    assert_eq!(dat.get_name(Group::All), None);
    dat.set_label(Group::All, String::from("main label"));
    dat.set_name(Group::Page { page: 3 }, String::from("third page"));
    assert_eq!(dat.get_label(Group::All), Some("main label"));
    assert_eq!(dat.get_name(Group::All), None);
    assert_eq!(dat.get_name(Group::Page { page: 3 }), Some("third page"));
    assert_eq!(dat.get_label(Group::Page { page: 3 }), None);
    dat.set_label(Group::All, String::from("renamed"));
    assert_eq!(dat.get_label(Group::All), Some("renamed"));
}

#[test]
fn elements_report_order_and_color() {
    let direct = ColorElement::ZerothOrder { color: Color(9, 9, 9) };
    let derived = ColorElement::FirstOrder { source: Reference { address: addr(1, 2, 3) } };
    assert_eq!(direct.order(), 0);
    assert_eq!(derived.order(), 1);
    assert_eq!(direct.current_color(), Some(Color(9, 9, 9)));
    assert_eq!(derived.current_color(), None);
    let slot = Slot::new(direct);
    assert_eq!(slot.get_color(), Some(Color(9, 9, 9)));
    assert_eq!(slot.get_order(), 0);
    assert_eq!(Slot::new(derived).get_order(), 1);
}

#[test]
fn error_descriptions_name_the_failure() {
    assert_eq!(
        Error::MaxCellLimitExceeded.description(),
        "maximum number of color slots for palette exceeded"
    );
    assert_eq!(
        Error::CannotSetDerivedColor.description(),
        "cannot assign color to a location containing a derived color value"
    );
    assert_eq!(
        Error::InvalidAddress(addr(0, 0, 0)).description(),
        "address lies outside of allowed range"
    );
    assert!(!Error::AddressInUse(addr(0, 0, 0)).description().is_empty());
    assert!(!Error::EmptyAddress(addr(0, 0, 0)).description().is_empty());
    assert!(!Error::InvalidReferenceComponent.description().is_empty());
    assert!(!Error::UnresolvedReferenceComponent.description().is_empty());
    assert!(!Error::InvalidReference(Reference { address: addr(0, 0, 0) })
        .description()
        .is_empty());
}

#[test]
fn group_projections() {
    let a = addr(5, 6, 7);
    assert_eq!(a.page_group(), Group::Page { page: 5 });
    assert_eq!(a.line_group(), Group::Line { page: 5, line: 6 });
}
