//! The class-node builder: a monotonic identifier generator, the positioned
//! class node for one table, and its terminal conversion into the flat
//! sequence of visual cells.

use crate::digits::dec_digits;
use crate::digits::format_u64;
use crate::digits::lemma_dec_digits_injective;
use vstd::prelude::*;
use vstd::string::StringExecFns;

verus! {

/// Height of a container's title band.
pub const TITLE_HEIGHT: u64 = 30;

/// Height of one stacked field row.
pub const FIELD_HEIGHT: u64 = 26;

/// The monotonic identifier generator: a counter, spelled in decimal for
/// each issued identifier, moving strictly up and never reused within a
/// run.
pub struct SeqId {
    next: u64,
}

impl SeqId {
    /// The value the generator will spell and issue next.
    pub closed spec fn counter(&self) -> nat {
        self.next as nat
    }

    /// A fresh generator, starting from zero.
    pub fn new() -> (g: SeqId)
        ensures
            g.counter() == 0,
    {
        SeqId { next: 0 }
    }

    /// The counter as a machine word, for callers that must guard against
    /// exhausting the identifier space.
    pub fn value(&self) -> (v: u64)
        ensures
            v as nat == self.counter(),
    {
        self.next
    }

    /// Issues the next identifier: the decimal spelling of the counter,
    /// which then moves up by one.
    pub fn next_id(&mut self) -> (id: String)
        requires
            old(self).counter() < u64::MAX as nat,
        ensures
            id@ == dec_digits(old(self).counter()),
            final(self).counter() == old(self).counter() + 1,
    {
        let id = format_u64(self.next);
        self.next = self.next + 1;
        id
    }
}

/// Identifiers issued at different counter states differ. With the counter
/// only ever moving up, every identifier issued during one run is unique,
/// never reused or recycled.
pub proof fn lemma_ids_unique(a: nat, b: nat)
    requires
        a != b,
    ensures
        dec_digits(a) != dec_digits(b),
{
    lemma_dec_digits_injective(a, b);
}

/// The lowest-level visual unit: the container box of one table, or one
/// field row inside it. A field row's coordinates are relative to its
/// container, whose identifier stands in `parent`.
#[derive(Debug, Clone)]
pub struct Cell {
    pub id: String,
    pub parent: String,
    pub label: String,
    pub x: u64,
    pub y: u64,
    pub width: u64,
    pub height: u64,
    pub is_container: bool,
}

/// One field row of a class node before conversion: its issued identifier
/// and its rendered label.
#[derive(Debug, Clone)]
pub struct Field {
    pub id: String,
    pub label: String,
}

/// A container's total height: the title band plus the stacked field rows.
pub open spec fn spec_height(nfields: nat) -> int {
    TITLE_HEIGHT as int + nfields * (FIELD_HEIGHT as int)
}

/// The visual class node of one table: a title, a fixed width, a position
/// once layout has set one, and the field rows in insertion order.
#[derive(Debug, Clone)]
pub struct DiagramElement {
    pub id: String,
    pub title: String,
    pub width: u64,
    pub x: u64,
    pub y: u64,
    pub pos_set: bool,
    pub fields: Vec<Field>,
}

impl DiagramElement {
    /// A class node with the given title and fixed width, no fields and no
    /// position yet, its container identifier drawn from the generator.
    pub fn new(title: String, width: u64, ids: &mut SeqId) -> (el: DiagramElement)
        requires
            old(ids).counter() < u64::MAX as nat,
        ensures
            final(ids).counter() == old(ids).counter() + 1,
            el.id@ == dec_digits(old(ids).counter()),
            el.title == title,
            el.width == width,
            !el.pos_set,
            el.fields@.len() == 0,
    {
        let id = ids.next_id();
        DiagramElement { id, title, width, x: 0, y: 0, pos_set: false, fields: Vec::new() }
    }

    /// Appends one field row with the given label, its identifier drawn
    /// from the generator. Rows keep call order, so one call per column,
    /// in column order, preserves the column order end to end.
    pub fn add_field(&mut self, label: String, ids: &mut SeqId)
        requires
            old(ids).counter() < u64::MAX as nat,
        ensures
            final(ids).counter() == old(ids).counter() + 1,
            final(self).fields@.len() == old(self).fields@.len() + 1,
            final(self).fields@.drop_last() == old(self).fields@,
            final(self).fields@.last().id@ == dec_digits(old(ids).counter()),
            final(self).fields@.last().label == label,
            final(self).id == old(self).id,
            final(self).title == old(self).title,
            final(self).width == old(self).width,
            final(self).x == old(self).x,
            final(self).y == old(self).y,
            final(self).pos_set == old(self).pos_set,
    {
        let id = ids.next_id();
        let ghost pre = self.fields@;
        self.fields.push(Field { id, label });
        proof {
            assert(self.fields@.drop_last() =~= pre);
        }
    }

    /// Finalizes the layout coordinates and records that a position is now
    /// set. A repeated call simply overwrites the earlier position.
    pub fn set_position(&mut self, x: u64, y: u64)
        ensures
            final(self).x == x,
            final(self).y == y,
            final(self).pos_set,
            final(self).id == old(self).id,
            final(self).title == old(self).title,
            final(self).width == old(self).width,
            final(self).fields == old(self).fields,
    {
        self.x = x;
        self.y = y;
        self.pos_set = true;
    }

    /// Converts the positioned element into its flat cell sequence: first
    /// the container cell carrying the title and the bounding box, then one
    /// fixed-height cell per field, in field order, stacked beneath the
    /// title band, each referencing the container's identifier as its
    /// parent. The element itself stays as it is.
    pub fn finalize(&self) -> (cells: Vec<Cell>)
        requires
            self.pos_set,
            spec_height(self.fields@.len()) <= u64::MAX as int,
        ensures
            cells@.len() == 1 + self.fields@.len(),
            cells@[0].id == self.id,
            cells@[0].parent@ == "1"@,
            cells@[0].label == self.title,
            cells@[0].x == self.x,
            cells@[0].y == self.y,
            cells@[0].width == self.width,
            cells@[0].height == spec_height(self.fields@.len()),
            cells@[0].is_container,
            forall|i: int|
                1 <= i < cells@.len() ==> {
                    let c = #[trigger] cells@[i];
                    &&& c.id == self.fields@[i - 1].id
                    &&& c.parent == self.id
                    &&& c.label == self.fields@[i - 1].label
                    &&& c.x == 0
                    &&& c.y == TITLE_HEIGHT as int + (i - 1) * (FIELD_HEIGHT as int)
                    &&& c.width == self.width
                    &&& c.height == FIELD_HEIGHT
                    &&& !c.is_container
                },
    {
        let n = self.fields.len();
        let mut cells: Vec<Cell> = Vec::new();
        let height = TITLE_HEIGHT + (n as u64) * FIELD_HEIGHT;
        cells.push(
            Cell {
                id: self.id.clone(),
                parent: "1".to_owned(),
                label: self.title.clone(),
                x: self.x,
                y: self.y,
                width: self.width,
                height,
                is_container: true,
            },
        );
        let ghost c0 = cells@[0];
        let mut j: usize = 0;
        let mut y: u64 = TITLE_HEIGHT;
        while j < n
            invariant
                0 <= j <= n,
                n == self.fields@.len(),
                spec_height(n as nat) <= u64::MAX as int,
                y == TITLE_HEIGHT as int + j * (FIELD_HEIGHT as int),
                cells@.len() == 1 + j,
                cells@[0] == c0,
                forall|i: int|
                    1 <= i < cells@.len() ==> {
                        let c = #[trigger] cells@[i];
                        &&& c.id == self.fields@[i - 1].id
                        &&& c.parent == self.id
                        &&& c.label == self.fields@[i - 1].label
                        &&& c.x == 0
                        &&& c.y == TITLE_HEIGHT as int + (i - 1) * (FIELD_HEIGHT as int)
                        &&& c.width == self.width
                        &&& c.height == FIELD_HEIGHT
                        &&& !c.is_container
                    },
            decreases n - j,
        {
            let field = &self.fields[j];
            cells.push(
                Cell {
                    id: field.id.clone(),
                    parent: self.id.clone(),
                    label: field.label.clone(),
                    x: 0,
                    y,
                    width: self.width,
                    height: FIELD_HEIGHT,
                    is_container: false,
                },
            );
            y = y + FIELD_HEIGHT;
            j = j + 1;
        }
        cells
    }
}

} // verus!
