//! The single-page assembler: walks the tables in listed order, builds one
//! class node per table on the fixed horizontal grid, and collects every
//! finalized cell onto the one page of the run.

use crate::diagram::spec_height;
use crate::diagram::Cell;
use crate::diagram::DiagramElement;
use crate::diagram::SeqId;
use crate::diagram::FIELD_HEIGHT;
use crate::diagram::TITLE_HEIGHT;
use crate::metadata::column_label;
use crate::metadata::has_internal_prefix;
use crate::metadata::list_tables;
use crate::metadata::metadata_from_db;
use crate::metadata::spec_column_label;
use crate::metadata::SchemaError;
use crate::metadata::TableMetadata;
use vstd::arithmetic::div_mod::lemma_fundamental_div_mod;
use vstd::arithmetic::mul::lemma_mul_inequality;
use vstd::prelude::*;

verus! {

/// Left margin of the grid: the first table's x offset.
pub const LEFT_MARGIN: u64 = 10;

/// The fixed gutter between neighbouring tables.
pub const GUTTER: u64 = 20;

/// The top line on which every table's box sits.
pub const TOP_LINE: u64 = 30;

/// The one top-level container of a run: the display name and every
/// element-derived cell, in processing order.
#[derive(Debug)]
pub struct Page {
    pub name: String,
    pub cells: Vec<Cell>,
}

impl Page {
    /// A new, empty page with the given display name.
    pub fn new_page(name: String) -> (p: Page)
        ensures
            p.name == name,
            p.cells@.len() == 0,
    {
        Page { name, cells: Vec::new() }
    }

    /// Adds a finalized element's cells at the end, preserving call order.
    /// No deduplication, no reordering, no validation of cross-references.
    pub fn append(&mut self, cells: Vec<Cell>)
        ensures
            final(self).cells@ == old(self).cells@ + cells@,
            final(self).name == old(self).name,
    {
        let mut incoming = cells;
        self.cells.append(&mut incoming);
    }
}

/// The number of cells one table contributes: its container and one cell
/// per column.
pub open spec fn group_len(t: TableMetadata) -> int {
    1 + t.columns@.len() as int
}

/// Where table `i`'s container cell stands in the page's cell sequence:
/// after all the cells of the tables before it.
pub open spec fn group_offset(ts: Seq<TableMetadata>, i: int) -> int
    decreases i,
{
    if i <= 0 {
        0
    } else {
        group_offset(ts, i - 1) + group_len(ts[i - 1])
    }
}

/// The cell count never falls as more tables are taken in.
proof fn lemma_group_offset_mono(ts: Seq<TableMetadata>, i: int, j: int)
    requires
        0 <= i <= j,
    ensures
        group_offset(ts, i) <= group_offset(ts, j),
    decreases j - i,
{
    if i < j {
        lemma_group_offset_mono(ts, i, j - 1);
    }
}

/// The x offset of the `i`-th table on the grid.
pub open spec fn spec_table_x(width: u64, i: int) -> int {
    LEFT_MARGIN as int + i * (width as int + GUTTER as int)
}

/// The whole assembly fits the machine word: the running x offset through
/// one step past the last table, every box's height, and the identifier
/// counter after the last issue.
pub open spec fn assemble_fits(ts: Seq<TableMetadata>, width: u64, counter0: nat) -> bool {
    &&& spec_table_x(width, ts.len() as int) <= u64::MAX as int
    &&& (forall|i: int|
        0 <= i < ts.len() ==> spec_height((#[trigger] ts[i]).columns@.len()) <= u64::MAX as int)
    &&& counter0 + group_offset(ts, ts.len() as int) <= u64::MAX as int
}

/// The `j`-th field cell of table `i` inside the page: a fixed-height row
/// stacked beneath the title band, labelled with its column, referencing
/// its table's container cell as its parent.
pub open spec fn field_cell_ok(
    cells: Seq<Cell>,
    ts: Seq<TableMetadata>,
    width: u64,
    i: int,
    j: int,
) -> bool {
    let off = group_offset(ts, i);
    let fc = cells[off + 1 + j];
    &&& !fc.is_container
    &&& fc.parent == cells[off].id
    &&& fc.label@ == spec_column_label(ts[i].columns@[j])
    &&& fc.x == 0
    &&& fc.y == TITLE_HEIGHT as int + j * (FIELD_HEIGHT as int)
    &&& fc.width == width
    &&& fc.height == FIELD_HEIGHT
}

/// One table's finished group of cells inside the page: at its offset the
/// container box, on the grid at the table's x offset, and behind it one
/// field cell per column, in column order, each referencing the
/// container's identifier as its parent.
pub open spec fn table_group_ok(cells: Seq<Cell>, ts: Seq<TableMetadata>, width: u64, i: int) -> bool {
    let off = group_offset(ts, i);
    let t = ts[i];
    let c = cells[off];
    &&& c.is_container
    &&& c.label == t.name
    &&& c.x == spec_table_x(width, i)
    &&& c.y == TOP_LINE
    &&& c.width == width
    &&& c.height == spec_height(t.columns@.len())
    &&& forall|j: int|
        0 <= j < t.columns@.len() ==> #[trigger] field_cell_ok(cells, ts, width, i, j)
}

/// The finished layout: exactly the tables' cell groups, in listed order,
/// each well formed.
pub open spec fn cells_well_laid(cells: Seq<Cell>, ts: Seq<TableMetadata>, width: u64) -> bool {
    &&& cells.len() == group_offset(ts, ts.len() as int)
    &&& forall|i: int| 0 <= i < ts.len() ==> #[trigger] table_group_ok(cells, ts, width, i)
}

/// Successive table boxes never overlap: in a finished layout, each
/// container's x offset is the previous container's x offset plus the
/// uniform width plus the fixed gutter.
pub proof fn lemma_tables_never_overlap(
    cells: Seq<Cell>,
    ts: Seq<TableMetadata>,
    width: u64,
    i: int,
)
    requires
        cells_well_laid(cells, ts, width),
        0 <= i,
        i + 1 < ts.len(),
    ensures
        cells[group_offset(ts, i + 1)].x == cells[group_offset(ts, i)].x + width + GUTTER,
{
    assert(table_group_ok(cells, ts, width, i));
    assert(table_group_ok(cells, ts, width, i + 1));
    assert((i + 1) * (width as int + GUTTER as int) == i * (width as int + GUTTER as int) + (
    width as int + GUTTER as int)) by (nonlinear_arith);
}

/// With no tables at all the assembly always fits the machine word, so a
/// run over a database with zero user tables always succeeds, with a valid
/// empty page rather than a failure.
pub proof fn lemma_empty_assembly_fits(width: u64, counter0: nat)
    requires
        counter0 <= u64::MAX as nat,
    ensures
        assemble_fits(Seq::<TableMetadata>::empty(), width, counter0),
{
    assert(group_offset(Seq::<TableMetadata>::empty(), 0) == 0);
}

/// Builds every table's class node, in listed order, and collects the
/// finalized cells onto one page: the `i`-th table stands at x offset
/// `LEFT_MARGIN + i * (width + GUTTER)` on the top line, its field rows in
/// column order beneath its title, each referencing its container's
/// identifier. Fails only where coordinates or the identifier space would
/// not fit the machine word: whenever [`assemble_fits`] holds of the
/// inputs, it succeeds. With no tables at all it always succeeds, with a
/// valid empty page.
#[verifier::loop_isolation(false)]
#[verifier::rlimit(100)]
pub fn assemble_page(
    tables: &Vec<TableMetadata>,
    width: u64,
    page_name: String,
    ids: &mut SeqId,
) -> (r: Result<Page, SchemaError>)
    ensures
        assemble_fits(tables@, width, old(ids).counter()) ==> r is Ok,
        r matches Ok(page) ==> {
            &&& page.name == page_name
            &&& cells_well_laid(page.cells@, tables@, width)
        },
        r matches Err(e) ==> e is RangeExceeded,
{
    let ghost c0 = ids.counter();
    let ghost ts = tables@;
    let mut page = Page::new_page(page_name);
    let n = tables.len();
    let mut x: u64 = LEFT_MARGIN;
    let mut i: usize = 0;
    while i < n
        invariant
            0 <= i <= n,
            n == ts.len(),
            ts == tables@,
            x as int == spec_table_x(width, i as int),
            ids.counter() == c0 + group_offset(ts, i as int),
            page.name == page_name,
            page.cells@.len() == group_offset(ts, i as int),
            forall|k: int| 0 <= k < i ==> #[trigger] table_group_ok(page.cells@, ts, width, k),
        decreases n - i,
    {
        let t = &tables[i];
        proof {
            assert(*t == ts[i as int]);
        }
        if ids.value() == u64::MAX {
            proof {
                if assemble_fits(ts, width, c0) {
                    assert(group_offset(ts, i as int + 1) == group_offset(ts, i as int)
                        + group_len(ts[i as int]));
                    assert(group_len(ts[i as int]) >= 1);
                    lemma_group_offset_mono(ts, i as int + 1, n as int);
                    assert(false);
                }
            }
            return Err(SchemaError::RangeExceeded);
        }
        let mut el = DiagramElement::new(t.name.clone(), width, ids);
        let m = t.columns.len();
        let mut j: usize = 0;
        while j < m
            invariant
                0 <= j <= m,
                m == t.columns@.len(),
                el.fields@.len() == j,
                forall|k: int|
                    0 <= k < j ==> (#[trigger] el.fields@[k]).label@ == spec_column_label(
                        t.columns@[k],
                    ),
                el.title == t.name,
                el.width == width,
                !el.pos_set,
                ids.counter() == c0 + group_offset(ts, i as int) + 1 + j,
                0 <= i < n,
                n == ts.len(),
                ts == tables@,
            decreases m - j,
        {
            if ids.value() == u64::MAX {
                proof {
                    if assemble_fits(ts, width, c0) {
                        assert(group_offset(ts, i as int + 1) == group_offset(ts, i as int)
                            + group_len(ts[i as int]));
                        assert(group_len(ts[i as int]) == 1 + m);
                        lemma_group_offset_mono(ts, i as int + 1, n as int);
                        assert(false);
                    }
                }
                return Err(SchemaError::RangeExceeded);
            }
            let label = column_label(&t.columns[j]);
            el.add_field(label, ids);
            proof {
                assert forall|k: int|
                    0 <= k < j + 1 implies (#[trigger] el.fields@[k]).label@ == spec_column_label(
                    t.columns@[k],
                ) by {
                    if k < j {
                        assert(el.fields@[k] == el.fields@.drop_last()[k]);
                    } else {
                        assert(el.fields@[k] == el.fields@.last());
                    }
                }
            }
            j = j + 1;
        }
        el.set_position(x, TOP_LINE);
        let hmax = (u64::MAX - TITLE_HEIGHT) / FIELD_HEIGHT;
        if (m as u64) > hmax {
            proof {
                if assemble_fits(ts, width, c0) {
                    lemma_fundamental_div_mod(
                        (u64::MAX - TITLE_HEIGHT) as int,
                        FIELD_HEIGHT as int,
                    );
                    lemma_mul_inequality(hmax as int + 1, m as int, FIELD_HEIGHT as int);
                    assert(false);
                }
            }
            return Err(SchemaError::RangeExceeded);
        }
        proof {
            lemma_fundamental_div_mod((u64::MAX - TITLE_HEIGHT) as int, FIELD_HEIGHT as int);
            lemma_mul_inequality(m as int, hmax as int, FIELD_HEIGHT as int);
            assert(spec_height(el.fields@.len()) <= u64::MAX as int);
        }
        let cells = el.finalize();
        let ghost pre_cells = page.cells@;
        let ghost group = cells@;
        page.append(cells);
        proof {
            assert(group_offset(ts, i as int + 1) == group_offset(ts, i as int) + group_len(
                ts[i as int],
            ));
            assert forall|k: int| 0 <= k < i + 1 implies #[trigger] table_group_ok(
                page.cells@,
                ts,
                width,
                k,
            ) by {
                let off = group_offset(ts, k);
                if k < i {
                    lemma_group_offset_mono(ts, 0, k);
                    lemma_group_offset_mono(ts, k + 1, i as int);
                    assert(group_offset(ts, k + 1) == off + group_len(ts[k]));
                    assert(table_group_ok(pre_cells, ts, width, k));
                    assert(page.cells@[off] == pre_cells[off]);
                    assert forall|jj: int|
                        0 <= jj < ts[k].columns@.len() implies #[trigger] field_cell_ok(
                        page.cells@,
                        ts,
                        width,
                        k,
                        jj,
                    ) by {
                        assert(field_cell_ok(pre_cells, ts, width, k, jj));
                        assert(off + 1 + jj < group_offset(ts, k + 1));
                        assert(page.cells@[off + 1 + jj] == pre_cells[off + 1 + jj]);
                    }
                } else {
                    assert(page.cells@[off] == group[0]);
                    assert forall|jj: int|
                        0 <= jj < ts[k].columns@.len() implies #[trigger] field_cell_ok(
                        page.cells@,
                        ts,
                        width,
                        k,
                        jj,
                    ) by {
                        assert(group.len() == 1 + m);
                        assert(page.cells@[off + 1 + jj] == group[1 + jj]);
                        assert(group[1 + jj].label == el.fields@[jj].label);
                        assert(el.fields@[jj].label@ == spec_column_label(ts[k].columns@[jj]));
                    }
                }
                assert(table_group_ok(page.cells@, ts, width, k));
            }
        }
        let x2 = match x.checked_add(width) {
            Some(v) => v,
            None => {
                proof {
                    if assemble_fits(ts, width, c0) {
                        assert((i as int + 1) * (width as int + GUTTER as int) == i as int * (
                        width as int + GUTTER as int) + (width as int + GUTTER as int))
                            by (nonlinear_arith);
                        lemma_mul_inequality(
                            i as int + 1,
                            n as int,
                            width as int + GUTTER as int,
                        );
                        assert(false);
                    }
                }
                return Err(SchemaError::RangeExceeded);
            },
        };
        let x3 = match x2.checked_add(GUTTER) {
            Some(v) => v,
            None => {
                proof {
                    if assemble_fits(ts, width, c0) {
                        assert((i as int + 1) * (width as int + GUTTER as int) == i as int * (
                        width as int + GUTTER as int) + (width as int + GUTTER as int))
                            by (nonlinear_arith);
                        lemma_mul_inequality(
                            i as int + 1,
                            n as int,
                            width as int + GUTTER as int,
                        );
                        assert(false);
                    }
                }
                return Err(SchemaError::RangeExceeded);
            },
        };
        proof {
            assert((i as int + 1) * (width as int + GUTTER as int) == i as int * (width as int
                + GUTTER as int) + (width as int + GUTTER as int)) by (nonlinear_arith);
        }
        x = x3;
        i = i + 1;
    }
    Ok(page)
}

/// One whole run over an open database: lists the user tables, reads each
/// table's metadata in listed order, and assembles the single page, the
/// identifier generator starting fresh. The page that comes back is laid
/// out as [`cells_well_laid`] says, for some table list whose names all
/// lack the reserved internal prefix; a database with no user tables gives
/// a valid empty page.
pub fn build_page(conn: &rusqlite::Connection, width: u64, page_name: String) -> (r: Result<
    Page,
    SchemaError,
>)
    ensures
        r matches Ok(page) ==> page.name == page_name,
        r matches Ok(page) ==> exists|ts: Seq<TableMetadata>|
            #[trigger] cells_well_laid(page.cells@, ts, width) && (forall|k: int|
                0 <= k < ts.len() ==> !has_internal_prefix((#[trigger] ts[k]).name@)),
{
    let names = match list_tables(conn) {
        Ok(v) => v,
        Err(e) => {
            return Err(e);
        },
    };
    let mut tables: Vec<TableMetadata> = Vec::new();
    let mut i: usize = 0;
    while i < names.len()
        invariant
            0 <= i <= names@.len(),
            tables@.len() == i,
            forall|k: int|
                0 <= k < names@.len() ==> !has_internal_prefix(#[trigger] names@[k]@),
            forall|k: int| 0 <= k < i ==> !has_internal_prefix((#[trigger] tables@[k]).name@),
        decreases names@.len() - i,
    {
        let m = match metadata_from_db(names[i].as_str(), conn) {
            Ok(m) => m,
            Err(e) => {
                return Err(e);
            },
        };
        tables.push(m);
        i = i + 1;
    }
    let mut ids = SeqId::new();
    match assemble_page(&tables, width, page_name, &mut ids) {
        Ok(page) => {
            proof {
                assert(cells_well_laid(page.cells@, tables@, width));
            }
            Ok(page)
        },
        Err(e) => Err(e),
    }
}

} // verus!
