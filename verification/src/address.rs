//! The hierarchical address model: a (page, line, column) coordinate, its
//! group projections used as metadata keys, and the wrap-around successor
//! that makes the address space a ring.

use vstd::prelude::*;
use vstd::arithmetic::div_mod::{lemma_fundamental_div_mod, lemma_fundamental_div_mod_converse};
use vstd::set_lib::{lemma_int_range, lemma_len_subset, lemma_map_size, set_int_range};
use vstd::relations::injective_on;

verus! {

/// Number of pages a palette may hold.
pub type PageCount = u8;
/// Number of lines in each page.
pub type LineCount = u8;
/// Number of columns in each line.
pub type ColumnCount = u8;

/// Largest supported page count.
pub const PAGE_MAX: PageCount = 255;
/// Largest supported line count.
pub const LINE_MAX: LineCount = 255;
/// Largest supported column count.
pub const COLUMN_MAX: ColumnCount = 255;

/// A three-level coordinate identifying one slot of a palette, ordered
/// lexicographically by (page, line, column).
#[derive(Clone, Copy, PartialEq, Eq, Structural, Debug)]
pub struct Address {
    pub page: u8,
    pub line: u8,
    pub column: u8,
}

/// A coarser projection of an address: the whole palette, one page, or one
/// line of a page. Groups key the palette's metadata.
#[derive(Clone, Copy, PartialEq, Eq, Structural, Debug)]
pub enum Group {
    All,
    Page { page: u8 },
    Line { page: u8, line: u8 },
}

/// Total number of addresses inside the given bounds.
pub open spec fn capacity(pages: u8, lines: u8, columns: u8) -> int {
    pages as int * lines as int * columns as int
}

impl Address {
    /// Position in the lexicographic (page, line, column) order; the map of
    /// slots iterates in increasing order of this key.
    pub open spec fn ord(self) -> int {
        self.page as int * 0x10000 + self.line as int * 0x100 + self.column as int
    }

    /// True when every component lies below its bound.
    pub open spec fn in_bounds(self, pages: u8, lines: u8, columns: u8) -> bool {
        self.page < pages && self.line < lines && self.column < columns
    }

    /// Position of an in-bounds address in the page-major traversal of the
    /// bounded space; ranges over 0 .. capacity.
    pub open spec fn space_index(self, lines: u8, columns: u8) -> int {
        (self.page as int * lines as int + self.line as int) * columns as int + self.column as int
    }

    /// The ring successor: the lexicographically next address, rolling
    /// column into line into page, and wrapping back to the zero address
    /// after the last address of the space.
    pub open spec fn spec_wrapped_next(self, pages: u8, lines: u8, columns: u8) -> Address {
        if self.column + 1 < columns {
            Address { page: self.page, line: self.line, column: (self.column + 1) as u8 }
        } else if self.line + 1 < lines {
            Address { page: self.page, line: (self.line + 1) as u8, column: 0 }
        } else if self.page + 1 < pages {
            Address { page: (self.page + 1) as u8, line: 0, column: 0 }
        } else {
            Address { page: 0, line: 0, column: 0 }
        }
    }

    pub fn new(page: u8, line: u8, column: u8) -> (a: Address)
        ensures
            a == (Address { page, line, column }),
    {
        Address { page, line, column }
    }

    /// The group of all addresses sharing this address's page.
    pub fn page_group(self) -> (g: Group)
        ensures
            g == (Group::Page { page: self.page }),
    {
        Group::Page { page: self.page }
    }

    /// The group of all addresses sharing this address's page and line.
    pub fn line_group(self) -> (g: Group)
        ensures
            g == (Group::Line { page: self.page, line: self.line }),
    {
        Group::Line { page: self.page, line: self.line }
    }

    /// Ring successor of this address under the given bounds.
    pub fn wrapped_next(self, pages: PageCount, lines: LineCount, columns: ColumnCount) -> (a: Address)
        ensures
            a == self.spec_wrapped_next(pages, lines, columns),
    {
        if (self.column as u16) + 1 < (columns as u16) {
            Address { page: self.page, line: self.line, column: self.column + 1 }
        } else if (self.line as u16) + 1 < (lines as u16) {
            Address { page: self.page, line: self.line + 1, column: 0 }
        } else if (self.page as u16) + 1 < (pages as u16) {
            Address { page: self.page + 1, line: 0, column: 0 }
        } else {
            Address { page: 0, line: 0, column: 0 }
        }
    }
}

/// The address reached from `a` by `n` applications of the ring successor.
pub open spec fn nth_next(a: Address, pages: u8, lines: u8, columns: u8, n: nat) -> Address
    decreases n,
{
    if n == 0 {
        a
    } else {
        nth_next(a, pages, lines, columns, (n - 1) as nat).spec_wrapped_next(pages, lines, columns)
    }
}

/// A positive capacity is the same as every bound being positive.
pub proof fn lemma_capacity_positive(pages: u8, lines: u8, columns: u8)
    ensures
        capacity(pages, lines, columns) >= 1 <==> (pages >= 1 && lines >= 1 && columns >= 1),
        capacity(pages, lines, columns) >= 0,
{
    assert(capacity(pages, lines, columns) >= 1 <==> (pages >= 1 && lines >= 1 && columns >= 1))
        by (nonlinear_arith);
    assert(capacity(pages, lines, columns) >= 0) by (nonlinear_arith);
}

/// An in-bounds address has a space index inside 0 .. capacity.
pub proof fn lemma_space_index_bounds(a: Address, pages: u8, lines: u8, columns: u8)
    requires
        a.in_bounds(pages, lines, columns),
    ensures
        0 <= a.space_index(lines, columns) < capacity(pages, lines, columns),
{
    assert(0 <= a.space_index(lines, columns) < capacity(pages, lines, columns))
        by (nonlinear_arith)
        requires
            a.page < pages,
            a.line < lines,
            a.column < columns,
    {}
}

/// The space index determines an in-bounds address completely.
pub proof fn lemma_space_index_injective(a: Address, b: Address, pages: u8, lines: u8, columns: u8)
    requires
        a.in_bounds(pages, lines, columns),
        b.in_bounds(pages, lines, columns),
        a.space_index(lines, columns) == b.space_index(lines, columns),
    ensures
        a == b,
{
    let idx = a.space_index(lines, columns);
    let qa = a.page as int * lines as int + a.line as int;
    let qb = b.page as int * lines as int + b.line as int;
    lemma_fundamental_div_mod_converse(idx, columns as int, qa, a.column as int);
    lemma_fundamental_div_mod_converse(idx, columns as int, qb, b.column as int);
    assert(qa == qb && a.column == b.column);
    lemma_fundamental_div_mod_converse(qa, lines as int, a.page as int, a.line as int);
    lemma_fundamental_div_mod_converse(qa, lines as int, b.page as int, b.line as int);
}

/// Stepping once moves the space index forward by one, modulo the capacity,
/// and stays inside the bounds.
pub proof fn lemma_wrapped_next_step(a: Address, pages: u8, lines: u8, columns: u8)
    requires
        a.in_bounds(pages, lines, columns),
    ensures
        a.spec_wrapped_next(pages, lines, columns).in_bounds(pages, lines, columns),
        a.spec_wrapped_next(pages, lines, columns).space_index(lines, columns)
            == (a.space_index(lines, columns) + 1) % capacity(pages, lines, columns),
{
    let cap = capacity(pages, lines, columns);
    let idx = a.space_index(lines, columns);
    let n = a.spec_wrapped_next(pages, lines, columns);
    let p = a.page as int;
    let l = a.line as int;
    let c = a.column as int;
    let ls = lines as int;
    let cs = columns as int;
    let ps = pages as int;
    lemma_space_index_bounds(a, pages, lines, columns);
    if a.column + 1 < columns {
        assert(n.space_index(lines, columns) == idx + 1);
    } else if a.line + 1 < lines {
        assert((p * ls + l + 1) * cs == (p * ls + l) * cs + c + 1) by (nonlinear_arith)
            requires
                c + 1 == cs,
        {}
        assert(n.space_index(lines, columns) == idx + 1);
    } else if a.page + 1 < pages {
        assert(((p + 1) * ls + 0) * cs == (p * ls + l) * cs + c + 1) by (nonlinear_arith)
            requires
                c + 1 == cs,
                l + 1 == ls,
        {}
        assert(n.space_index(lines, columns) == idx + 1);
    } else {
        assert((p * ls + l) * cs + c == ps * ls * cs - 1) by (nonlinear_arith)
            requires
                c + 1 == cs,
                l + 1 == ls,
                p + 1 == ps,
        {}
        assert(idx == cap - 1);
        assert(n == (Address { page: 0u8, line: 0u8, column: 0u8 }));
        assert((0int * ls + 0) * cs + 0 == 0) by (nonlinear_arith);
        assert(n.space_index(lines, columns) == 0);
        lemma_fundamental_div_mod_converse(idx + 1, cap, 1, 0);
    }
    if n.space_index(lines, columns) == idx + 1 {
        lemma_space_index_bounds(n, pages, lines, columns);
        lemma_fundamental_div_mod_converse(idx + 1, cap, 0, idx + 1);
    }
    lemma_space_index_bounds(n, pages, lines, columns);
}

/// Iterating the successor `n` times moves the space index forward by `n`,
/// modulo the capacity, staying in bounds.
pub proof fn lemma_nth_next_index(a: Address, pages: u8, lines: u8, columns: u8, n: nat)
    requires
        a.in_bounds(pages, lines, columns),
    ensures
        nth_next(a, pages, lines, columns, n).in_bounds(pages, lines, columns),
        nth_next(a, pages, lines, columns, n).space_index(lines, columns)
            == (a.space_index(lines, columns) + n) % capacity(pages, lines, columns),
    decreases n,
{
    let cap = capacity(pages, lines, columns);
    lemma_space_index_bounds(a, pages, lines, columns);
    let idx = a.space_index(lines, columns);
    if n == 0 {
        lemma_fundamental_div_mod_converse(idx, cap, 0, idx);
    } else {
        let prev = nth_next(a, pages, lines, columns, (n - 1) as nat);
        lemma_nth_next_index(a, pages, lines, columns, (n - 1) as nat);
        lemma_wrapped_next_step(prev, pages, lines, columns);
        let r = prev.space_index(lines, columns);
        lemma_fundamental_div_mod(idx + n - 1, cap);
        let q = (idx + n - 1) / cap;
        assert(idx + n - 1 == q * cap + r);
        if r + 1 < cap {
            lemma_fundamental_div_mod_converse(r + 1, cap, 0, r + 1);
            lemma_fundamental_div_mod_converse(idx + n, cap, q, r + 1);
        } else {
            assert(r + 1 == cap);
            lemma_fundamental_div_mod_converse(r + 1, cap, 1, 0);
            assert(idx + n == (q + 1) * cap + 0) by (nonlinear_arith)
                requires
                    idx + n - 1 == q * cap + r,
                    r + 1 == cap,
            {}
            lemma_fundamental_div_mod_converse(idx + n, cap, q + 1, 0);
        }
    }
}

/// Two distinct shifts smaller than the modulus land on distinct residues.
proof fn lemma_mod_shift_distinct(s: int, i: int, j: int, cap: int)
    requires
        0 <= s,
        0 <= i < j < cap,
    ensures
        (s + i) % cap != (s + j) % cap,
{
    lemma_fundamental_div_mod(s + i, cap);
    lemma_fundamental_div_mod(s + j, cap);
    let qi = (s + i) / cap;
    let qj = (s + j) / cap;
    if (s + i) % cap == (s + j) % cap {
        let r = (s + i) % cap;
        assert(false) by (nonlinear_arith)
            requires
                s + i == cap * qi + r,
                s + j == cap * qj + r,
                0 <= i < j < cap,
        {}
    }
}

/// Ring closure: from any address inside the bounds, applying the wrap-around
/// successor capacity-many times returns to the starting address, and no
/// address repeats before the cycle completes.
pub proof fn lemma_ring_closure(a: Address, pages: u8, lines: u8, columns: u8)
    requires
        a.in_bounds(pages, lines, columns),
    ensures
        nth_next(a, pages, lines, columns, capacity(pages, lines, columns) as nat) == a,
        forall|i: nat, j: nat|
            i < j < capacity(pages, lines, columns)
                ==> #[trigger] nth_next(a, pages, lines, columns, i)
                    != #[trigger] nth_next(a, pages, lines, columns, j),
{
    let cap = capacity(pages, lines, columns);
    let idx = a.space_index(lines, columns);
    lemma_space_index_bounds(a, pages, lines, columns);
    lemma_nth_next_index(a, pages, lines, columns, cap as nat);
    lemma_fundamental_div_mod_converse(idx + cap, cap, 1, idx);
    lemma_space_index_injective(
        nth_next(a, pages, lines, columns, cap as nat),
        a,
        pages,
        lines,
        columns,
    );
    assert forall|i: nat, j: nat| i < j < cap implies #[trigger] nth_next(
        a,
        pages,
        lines,
        columns,
        i,
    ) != #[trigger] nth_next(a, pages, lines, columns, j) by {
        lemma_nth_next_index(a, pages, lines, columns, i);
        lemma_nth_next_index(a, pages, lines, columns, j);
        lemma_mod_shift_distinct(idx, i as int, j as int, cap);
    }
}

/// If every address on a full orbit of the ring is a key of the map, the map
/// holds at least capacity-many keys.
pub proof fn lemma_full_orbit_bounds_len<V>(
    m: Map<Address, V>,
    start: Address,
    pages: u8,
    lines: u8,
    columns: u8,
)
    requires
        m.dom().finite(),
        start.in_bounds(pages, lines, columns),
        forall|n: nat|
            n < capacity(pages, lines, columns)
                ==> m.contains_key(#[trigger] nth_next(start, pages, lines, columns, n)),
    ensures
        m.len() >= capacity(pages, lines, columns),
{
    let cap = capacity(pages, lines, columns);
    let s = start.space_index(lines, columns);
    lemma_space_index_bounds(start, pages, lines, columns);
    let f = |j: int| nth_next(start, pages, lines, columns, j as nat);
    let xs = set_int_range(0, cap);
    lemma_int_range(0, cap);
    assert forall|j1: int, j2: int|
        #![trigger xs.contains(j1), xs.contains(j2)]
        xs.contains(j1) && xs.contains(j2) && f(j1) == f(j2) implies j1 == j2 by {
        lemma_nth_next_index(start, pages, lines, columns, j1 as nat);
        lemma_nth_next_index(start, pages, lines, columns, j2 as nat);
        if j1 < j2 {
            lemma_mod_shift_distinct(s, j1, j2, cap);
        }
        if j2 < j1 {
            lemma_mod_shift_distinct(s, j2, j1, cap);
        }
    }
    assert(injective_on(f, xs));
    let ys = xs.map(f);
    lemma_map_size(xs, ys, f);
    assert forall|y: Address| ys.contains(y) implies m.dom().contains(y) by {
        let j = choose|j: int| xs.contains(j) && #[trigger] f(j) == y;
        assert(m.contains_key(nth_next(start, pages, lines, columns, j as nat)));
    }
    lemma_len_subset(ys, m.dom());
}

} // verus!
