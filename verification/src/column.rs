//! The columns that the aggregations read, and the numbers they hold.

use vstd::prelude::*;
use vstd::std_specs::hash::obeys_key_model;
use crate::index::{
    date_column, dates_column, i64_column, i64s_column, segment_date_column,
    segment_dates_column, segment_i64_column, segment_i64s_column, segment_max_doc,
    segment_u64_column, segment_u64s_column, u64_column, u64s_column, DateColumn, DatesColumn,
    DocId, I64Column, I64sColumn, U64Column, U64sColumn,
};

verus! {

/// An integer that a column can hold. Its order is that of the number it
/// stands for, and its sum stops at the ends of its range.
pub trait FastNumber: Copy + Sized + core::hash::Hash + Eq {
    spec fn num(self) -> int;

    /// The sum, or the end of the range that the sum has left.
    spec fn plus(self, other: Self) -> Self;

    /// The sum of the two is of no less use than the true sum: either it is
    /// the true sum, or sums that have left the range this way stay where
    /// they are whatever is added.
    spec fn sums_exactly(self, other: Self) -> bool;

    fn is_below(self, other: Self) -> (below: bool)
        ensures
            below == (self.num() < other.num()),
    ;

    fn add_saturating(self, other: Self) -> (sum: Self)
        ensures
            sum == self.plus(other),
    ;

    proof fn law_num(a: Self, b: Self)
        ensures
            a.num() == b.num() ==> a == b,
            a.plus(b) == b.plus(a),
            a.sums_exactly(b) == b.sums_exactly(a),
            obeys_key_model::<Self>(),
    ;

    proof fn law_plus_associative(a: Self, b: Self, c: Self)
        requires
            a.sums_exactly(b),
            b.sums_exactly(c),
            a.plus(b).sums_exactly(c),
        ensures
            a.plus(b).plus(c) == a.plus(b.plus(c)),
            a.sums_exactly(b.plus(c)),
    ;
}

impl FastNumber for u64 {
    open spec fn num(self) -> int {
        self as int
    }

    open spec fn plus(self, other: u64) -> u64 {
        if self + other > u64::MAX {
            u64::MAX
        } else {
            (self + other) as u64
        }
    }

    open spec fn sums_exactly(self, other: u64) -> bool {
        true
    }

    fn is_below(self, other: u64) -> (below: bool) {
        self < other
    }

    fn add_saturating(self, other: u64) -> (sum: u64) {
        self.saturating_add(other)
    }

    proof fn law_num(a: u64, b: u64) {
        broadcast use vstd::std_specs::hash::group_hash_axioms;

    }

    proof fn law_plus_associative(a: u64, b: u64, c: u64) {
    }
}

impl FastNumber for i64 {
    open spec fn num(self) -> int {
        self as int
    }

    open spec fn plus(self, other: i64) -> i64 {
        if self + other > i64::MAX {
            i64::MAX
        } else if self + other < i64::MIN {
            i64::MIN
        } else {
            (self + other) as i64
        }
    }

    open spec fn sums_exactly(self, other: i64) -> bool {
        i64::MIN <= self + other <= i64::MAX
    }

    fn is_below(self, other: i64) -> (below: bool) {
        self < other
    }

    fn add_saturating(self, other: i64) -> (sum: i64) {
        match self.checked_add(other) {
            Some(sum) => sum,
            None => if other > 0 {
                i64::MAX
            } else {
                i64::MIN
            },
        }
    }

    proof fn law_num(a: i64, b: i64) {
        broadcast use vstd::std_specs::hash::group_hash_axioms;

    }

    proof fn law_plus_associative(a: i64, b: i64, c: i64) {
    }
}

/// A column of one segment: for each document id the values of the document.
pub trait FastColumn: Sized {
    type Value: FastNumber;

    /// The values of each document, in the order in which it holds them.
    spec fn rows(&self) -> Seq<Seq<Self::Value>>;

    /// The rows of the column of this kind that the segment has for the
    /// field, if it has one.
    spec fn stored(reader: tantivy::SegmentReader, field: tantivy::schema::Field) -> Option<
        Seq<Seq<Self::Value>>,
    >;

    fn open(reader: &tantivy::SegmentReader, field: tantivy::schema::Field) -> (r: Option<Self>)
        ensures
            Self::stored(*reader, field) == match r {
                Some(column) => Some(column.rows()),
                None => None,
            },
            r matches Some(column) ==> column.rows().len() == segment_max_doc(*reader),
    ;

    /// Replaces the buffer's content by the values of the document.
    fn read(&self, doc: DocId, vals: &mut Vec<Self::Value>)
        requires
            doc < self.rows().len(),
        ensures
            final(vals)@ == self.rows()[doc as int],
    ;
}

impl FastColumn for U64Column {
    type Value = u64;

    open spec fn rows(&self) -> Seq<Seq<u64>> {
        Seq::new(u64_column(*self).len(), |doc: int| seq![u64_column(*self)[doc]])
    }

    open spec fn stored(reader: tantivy::SegmentReader, field: tantivy::schema::Field) -> Option<
        Seq<Seq<u64>>,
    > {
        match segment_u64_column(reader, field) {
            Some(values) => Some(Seq::new(values.len(), |doc: int| seq![values[doc]])),
            None => None,
        }
    }

    fn open(reader: &tantivy::SegmentReader, field: tantivy::schema::Field) -> (r: Option<Self>) {
        U64Column::open(reader, field)
    }

    fn read(&self, doc: DocId, vals: &mut Vec<u64>) {
        vals.clear();
        vals.push(self.get(doc));
        assert(vals@ =~= self.rows()[doc as int]);
    }
}

impl FastColumn for I64Column {
    type Value = i64;

    open spec fn rows(&self) -> Seq<Seq<i64>> {
        Seq::new(i64_column(*self).len(), |doc: int| seq![i64_column(*self)[doc]])
    }

    open spec fn stored(reader: tantivy::SegmentReader, field: tantivy::schema::Field) -> Option<
        Seq<Seq<i64>>,
    > {
        match segment_i64_column(reader, field) {
            Some(values) => Some(Seq::new(values.len(), |doc: int| seq![values[doc]])),
            None => None,
        }
    }

    fn open(reader: &tantivy::SegmentReader, field: tantivy::schema::Field) -> (r: Option<Self>) {
        I64Column::open(reader, field)
    }

    fn read(&self, doc: DocId, vals: &mut Vec<i64>) {
        vals.clear();
        vals.push(self.get(doc));
        assert(vals@ =~= self.rows()[doc as int]);
    }
}

impl FastColumn for U64sColumn {
    type Value = u64;

    open spec fn rows(&self) -> Seq<Seq<u64>> {
        u64s_column(*self)
    }

    open spec fn stored(reader: tantivy::SegmentReader, field: tantivy::schema::Field) -> Option<
        Seq<Seq<u64>>,
    > {
        segment_u64s_column(reader, field)
    }

    fn open(reader: &tantivy::SegmentReader, field: tantivy::schema::Field) -> (r: Option<Self>) {
        U64sColumn::open(reader, field)
    }

    fn read(&self, doc: DocId, vals: &mut Vec<u64>) {
        self.get_vals(doc, vals);
    }
}

impl FastColumn for I64sColumn {
    type Value = i64;

    open spec fn rows(&self) -> Seq<Seq<i64>> {
        i64s_column(*self)
    }

    open spec fn stored(reader: tantivy::SegmentReader, field: tantivy::schema::Field) -> Option<
        Seq<Seq<i64>>,
    > {
        segment_i64s_column(reader, field)
    }

    fn open(reader: &tantivy::SegmentReader, field: tantivy::schema::Field) -> (r: Option<Self>) {
        I64sColumn::open(reader, field)
    }

    fn read(&self, doc: DocId, vals: &mut Vec<i64>) {
        self.get_vals(doc, vals);
    }
}

impl FastColumn for DateColumn {
    type Value = i64;

    open spec fn rows(&self) -> Seq<Seq<i64>> {
        Seq::new(date_column(*self).len(), |doc: int| seq![date_column(*self)[doc]])
    }

    open spec fn stored(reader: tantivy::SegmentReader, field: tantivy::schema::Field) -> Option<
        Seq<Seq<i64>>,
    > {
        match segment_date_column(reader, field) {
            Some(values) => Some(Seq::new(values.len(), |doc: int| seq![values[doc]])),
            None => None,
        }
    }

    fn open(reader: &tantivy::SegmentReader, field: tantivy::schema::Field) -> (r: Option<Self>) {
        DateColumn::open(reader, field)
    }

    fn read(&self, doc: DocId, vals: &mut Vec<i64>) {
        vals.clear();
        vals.push(self.get(doc));
        assert(vals@ =~= self.rows()[doc as int]);
    }
}

impl FastColumn for DatesColumn {
    type Value = i64;

    open spec fn rows(&self) -> Seq<Seq<i64>> {
        dates_column(*self)
    }

    open spec fn stored(reader: tantivy::SegmentReader, field: tantivy::schema::Field) -> Option<
        Seq<Seq<i64>>,
    > {
        segment_dates_column(reader, field)
    }

    fn open(reader: &tantivy::SegmentReader, field: tantivy::schema::Field) -> (r: Option<Self>) {
        DatesColumn::open(reader, field)
    }

    fn read(&self, doc: DocId, vals: &mut Vec<i64>) {
        self.get_vals(doc, vals);
    }
}

} // verus!
