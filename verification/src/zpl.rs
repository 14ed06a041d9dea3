//! The ZPL palette format: a plugin owning one palette store with that
//! format's fixed geometry, and the exact byte stream its serialization
//! produces — a fixed twelve-byte header, a body region with no per-group
//! payload in this format revision, and a fixed footer of five constant
//! blocks, of which the two four-byte zero blocks repeat 109 and 79 times.

use vstd::prelude::*;
use crate::address::Group;
use crate::data::PaletteData;
use crate::hooks::NoOpHooks;

verus! {

/// The fixed header of the stream.
pub open spec fn zpl_header() -> Seq<u8> {
    seq![
        0x43u8,
        0x53u8,
        0x45u8,
        0x54u8,
        0x04u8,
        0x00u8,
        0x01u8,
        0x00u8,
        0x9cu8,
        0x0du8,
        0x05u8,
        0x00u8,
    ]
}

/// The first footer block, written once.
pub open spec fn zpl_footer_a() -> Seq<u8> {
    seq![0x5au8, 0x00u8, 0x00u8, 0x00u8]
}

/// The second and fourth footer blocks are four zero bytes each, written 109
/// and 79 times respectively: two zero runs of 436 and 316 bytes.
pub open spec fn zero_bytes(n: nat) -> Seq<u8> {
    Seq::new(n, |i: int| 0u8)
}

/// The third footer block, written once.
pub open spec fn zpl_footer_c() -> Seq<u8> {
    seq![
        0x00u8,
        0x00u8,
        0x00u8,
        0x36u8,
        0x00u8,
        0x00u8,
        0x4eu8,
        0x00u8,
        0x00u8,
        0x14u8,
        0x00u8,
        0x00u8,
        0x36u8,
        0x00u8,
        0x00u8,
        0x4eu8,
        0x00u8,
        0x00u8,
        0x14u8,
        0x00u8,
    ]
}

/// The last footer block, written once.
pub open spec fn zpl_footer_e() -> Seq<u8> {
    seq![
        0x22u8,
        0x00u8,
        0x00u8,
        0x66u8,
        0x00u8,
        0x00u8,
        0x5au8,
        0x00u8,
        0x00u8,
        0x22u8,
        0x00u8,
        0x00u8,
        0x86u8,
        0x00u8,
        0x00u8,
        0x3cu8,
        0x00u8,
        0x00u8,
        0x22u8,
        0x00u8,
        0x00u8,
        0x86u8,
        0x00u8,
        0x00u8,
        0x3cu8,
        0x00u8,
        0x00u8,
        0x20u8,
        0x30u8,
        0x40u8,
        0x3fu8,
        0x3fu8,
        0x3fu8,
        0x07u8,
        0x07u8,
        0x07u8,
    ]
}

/// The complete serialized stream of a palette in this format.
pub open spec fn zpl_stream() -> Seq<u8> {
    zpl_header() + zpl_footer_a() + zero_bytes(436) + zpl_footer_c() + zero_bytes(316)
        + zpl_footer_e()
}

/// A palette in the ZPL format: the format owns exactly one store and fixes
/// its geometry at 255 pages of 16 lines of 16 columns.
pub struct ZplPalette {
    /// The one palette store this format owns.
    pub store: PaletteData<NoOpHooks>,
}

impl ZplPalette {
    /// A fresh ZPL palette carrying the given display name: the store gets
    /// the format's fixed bounds, the format label and the name on the
    /// top-level group, and that group marked initialized.
    pub fn new(name: String) -> (r: ZplPalette)
        ensures
            r.store.wf(),
            r.store.slots() == Map::<
                crate::address::Address,
                crate::element::ColorElement,
            >::empty(),
            r.store.page_count == 255,
            r.store.default_line_count == 16,
            r.store.default_column_count == 16,
            r.store.address_cursor == (crate::address::Address { page: 0, line: 0, column: 0 }),
            r.store.metadata.spec_entry(Group::All).format_label == Some("ZplPalette 1.0.0"@),
            r.store.metadata.spec_entry(Group::All).name == Some(name@),
            r.store.metadata.spec_entry(Group::All).initialized,
    {
        let mut store = PaletteData::new(NoOpHooks);
        store.set_label(Group::All, "ZplPalette 1.0.0".to_owned());
        store.set_name(Group::All, name);
        store.page_count = 255;
        store.default_line_count = 16;
        store.default_column_count = 16;
        store.set_initialized(Group::All, true);
        ZplPalette { store }
    }

    /// The serialized byte stream of this palette: structural bytes are the
    /// format's constants; this format revision writes no per-group payload
    /// between header and footer.
    pub fn serialized_bytes(&self) -> (r: Vec<u8>)
        ensures
            r@ == zpl_stream(),
    {
        let mut out: Vec<u8> = Vec::new();
        out.push(0x43);
        out.push(0x53);
        out.push(0x45);
        out.push(0x54);
        out.push(0x04);
        out.push(0x00);
        out.push(0x01);
        out.push(0x00);
        out.push(0x9c);
        out.push(0x0d);
        out.push(0x05);
        out.push(0x00);
        proof {
            assert(out@ =~= zpl_header());
        }
        out.push(0x5a);
        out.push(0x00);
        out.push(0x00);
        out.push(0x00);
        proof {
            assert(out@ =~= zpl_header() + zpl_footer_a());
        }
        let mut i: usize = 0;
        while i < 436
            invariant
                i <= 436,
                out@ == zpl_header() + zpl_footer_a() + zero_bytes(i as nat),
            decreases 436 - i,
        {
            out.push(0x00);
            i = i + 1;
            proof {
                assert(out@ =~= zpl_header() + zpl_footer_a() + zero_bytes(i as nat));
            }
        }
        let ghost mid_c = zpl_header() + zpl_footer_a() + zero_bytes(436);
        out.push(0x00);
        out.push(0x00);
        out.push(0x00);
        out.push(0x36);
        out.push(0x00);
        out.push(0x00);
        out.push(0x4e);
        out.push(0x00);
        out.push(0x00);
        out.push(0x14);
        out.push(0x00);
        out.push(0x00);
        out.push(0x36);
        out.push(0x00);
        out.push(0x00);
        out.push(0x4e);
        out.push(0x00);
        out.push(0x00);
        out.push(0x14);
        out.push(0x00);
        proof {
            assert(out@ =~= mid_c + zpl_footer_c());
        }
        let mut j: usize = 0;
        while j < 316
            invariant
                j <= 316,
                out@ == mid_c + zpl_footer_c() + zero_bytes(j as nat),
            decreases 316 - j,
        {
            out.push(0x00);
            j = j + 1;
            proof {
                assert(out@ =~= mid_c + zpl_footer_c() + zero_bytes(j as nat));
            }
        }
        out.push(0x22);
        out.push(0x00);
        out.push(0x00);
        out.push(0x66);
        out.push(0x00);
        out.push(0x00);
        out.push(0x5a);
        out.push(0x00);
        out.push(0x00);
        out.push(0x22);
        out.push(0x00);
        out.push(0x00);
        out.push(0x86);
        out.push(0x00);
        out.push(0x00);
        out.push(0x3c);
        out.push(0x00);
        out.push(0x00);
        out.push(0x22);
        out.push(0x00);
        out.push(0x00);
        out.push(0x86);
        out.push(0x00);
        out.push(0x00);
        out.push(0x3c);
        out.push(0x00);
        out.push(0x00);
        out.push(0x20);
        out.push(0x30);
        out.push(0x40);
        out.push(0x3f);
        out.push(0x3f);
        out.push(0x3f);
        out.push(0x07);
        out.push(0x07);
        out.push(0x07);
        proof {
            assert(out@ =~= zpl_stream());
        }
        out
    }
}

} // verus!
