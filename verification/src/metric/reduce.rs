//! The metrics that reduce the values of a column to one value: the
//! smallest, the largest, or the sum. The fruit is empty until a value has
//! been seen. The values of a document are merged into the fruit one by one,
//! in the order in which the column holds them. A sum stops at the ends of
//! the range of its type.

use vstd::prelude::*;
use core::marker::PhantomData;
use crate::agg::{folded, Agg, AggError, AggSegmentContext, FruitModel, PreparedAgg, SegmentAgg};
use crate::column::{FastColumn, FastNumber};
use crate::index::{
    DateColumn, DatesColumn, DocId, I64Column, I64sColumn, ScoreBits, U64Column, U64sColumn,
};

verus! {

/// How a metric combines two values.
#[derive(Clone, Copy, PartialEq, Eq, Debug)]
pub enum Reduction {
    Min,
    Max,
    Sum,
}

impl<T> FruitModel for Option<T> {
    type Model = Option<T>;

    open spec fn model(&self) -> Option<T> {
        *self
    }
}

/// The value that two values reduce to. Of two values of the same rank the
/// first stays.
pub open spec fn combined<T: FastNumber>(how: Reduction, x: T, y: T) -> T {
    match how {
        Reduction::Min => if y.num() < x.num() {
            y
        } else {
            x
        },
        Reduction::Max => if y.num() > x.num() {
            y
        } else {
            x
        },
        Reduction::Sum => x.plus(y),
    }
}

/// The merge of two fruits: an empty fruit gives way to the other one.
pub open spec fn reduced<T: FastNumber>(how: Reduction, a: Option<T>, b: Option<T>) -> Option<T> {
    match (a, b) {
        (None, _) => b,
        (_, None) => a,
        (Some(x), Some(y)) => Some(combined(how, x, y)),
    }
}

/// Whether the merge of two fruits loses nothing.
pub open spec fn reduces_exactly<T: FastNumber>(how: Reduction, a: Option<T>, b: Option<T>) -> bool {
    match (how, a, b) {
        (Reduction::Sum, Some(x), Some(y)) => x.sums_exactly(y),
        _ => true,
    }
}

/// Two fruits merge to the same fruit in either order.
pub proof fn lemma_reduced_commutative<T: FastNumber>(how: Reduction, a: Option<T>, b: Option<T>)
    ensures
        reduced(how, a, b) == reduced(how, b, a),
        reduces_exactly(how, a, b) == reduces_exactly(how, b, a),
{
    if let (Some(x), Some(y)) = (a, b) {
        T::law_num(x, y);
    }
}

/// Three fruits merge to the same fruit however they are grouped, as long as
/// no sum among them is cut short in a way that shows.
pub proof fn lemma_reduced_associative<T: FastNumber>(
    how: Reduction,
    a: Option<T>,
    b: Option<T>,
    c: Option<T>,
)
    requires
        reduces_exactly(how, a, b),
        reduces_exactly(how, b, c),
        reduces_exactly(how, reduced(how, a, b), c),
    ensures
        reduced(how, reduced(how, a, b), c) == reduced(how, a, reduced(how, b, c)),
        reduces_exactly(how, a, reduced(how, b, c)),
{
    if let (Some(x), Some(y), Some(z)) = (a, b, c) {
        T::law_num(x, y);
        T::law_num(y, z);
        T::law_num(x, z);
        if how == Reduction::Sum {
            T::law_plus_associative(x, y, z);
        }
    }
}

fn combine<T: FastNumber>(how: Reduction, x: T, y: T) -> (r: T)
    ensures
        r == combined(how, x, y),
{
    match how {
        Reduction::Min => if y.is_below(x) {
            y
        } else {
            x
        },
        Reduction::Max => if x.is_below(y) {
            y
        } else {
            x
        },
        Reduction::Sum => x.add_saturating(y),
    }
}

/// Merges the second fruit into the first.
pub fn reduce_into<T: FastNumber>(how: Reduction, acc: &mut Option<T>, fruit: Option<T>)
    ensures
        *final(acc) == reduced(how, *old(acc), fruit),
{
    match fruit {
        None => {},
        Some(v) => {
            let merged = match *acc {
                Some(value) => combine(how, value, v),
                None => v,
            };
            *acc = Some(merged);
        },
    }
}

/// A metric over the column of a field.
pub struct ReduceAgg<C> {
    field: tantivy::schema::Field,
    how: Reduction,
    column: PhantomData<C>,
}

/// The metric, bound to a searcher.
pub struct PreparedReduceAgg<C> {
    field: tantivy::schema::Field,
    how: Reduction,
    column: PhantomData<C>,
}

/// The metric on one segment: it holds the column, and a buffer for the
/// values of the document at hand.
pub struct ReduceSegmentAgg<C: FastColumn> {
    column: C,
    how: Reduction,
    vals: Vec<C::Value>,
}

impl<C: FastColumn> ReduceAgg<C> {
    pub closed spec fn field(&self) -> tantivy::schema::Field {
        self.field
    }

    pub closed spec fn how(&self) -> Reduction {
        self.how
    }

    /// The metric that reduces the column of the field in the given way.
    pub fn new(field: tantivy::schema::Field, how: Reduction) -> (agg: Self)
        ensures
            agg.field() == field,
            agg.how() == how,
    {
        ReduceAgg { field, how, column: PhantomData }
    }
}

impl<C: FastColumn> PreparedReduceAgg<C> {
    pub closed spec fn field(&self) -> tantivy::schema::Field {
        self.field
    }

    pub closed spec fn how(&self) -> Reduction {
        self.how
    }
}

impl<C: FastColumn> Agg for ReduceAgg<C> {
    type Fruit = Option<C::Value>;

    type Child = PreparedReduceAgg<C>;

    open spec fn leaf_scoring(&self) -> Seq<bool> {
        seq![false]
    }

    open spec fn inv(&self) -> bool {
        true
    }

    open spec fn steady(&self) -> bool {
        true
    }

    open spec fn runs_on(&self, searcher: tantivy::Searcher) -> bool {
        true
    }

    open spec fn prepare_error(&self, searcher: tantivy::Searcher) -> Option<AggError> {
        None
    }

    open spec fn prepared_by(&self, searcher: tantivy::Searcher, prepared: PreparedReduceAgg<C>) -> bool {
        true
    }

    open spec fn prepares(&self, prepared: PreparedReduceAgg<C>) -> bool {
        prepared.field() == self.field() && prepared.how() == self.how()
    }

    fn prepare(&self, searcher: &tantivy::Searcher) -> (r: Result<PreparedReduceAgg<C>, AggError>) {
        Ok(PreparedReduceAgg { field: self.field, how: self.how, column: PhantomData })
    }

    fn requires_scoring(&self) -> (scoring: bool) {
        assert(!self.leaf_scoring().contains(true)) by {
            assert(self.leaf_scoring().len() == 1);
        }
        false
    }
}

impl<C: FastColumn> PreparedAgg for PreparedReduceAgg<C> {
    type Fruit = Option<C::Value>;

    type Child = ReduceSegmentAgg<C>;

    open spec fn inv(&self) -> bool {
        true
    }

    open spec fn fruit_ok(&self, fruit: Option<C::Value>) -> bool {
        true
    }

    open spec fn empty(&self) -> Option<C::Value> {
        None
    }

    open spec fn merged(&self, a: Option<C::Value>, b: Option<C::Value>) -> Option<C::Value> {
        reduced(self.how(), a, b)
    }

    open spec fn fits(&self, a: Option<C::Value>, b: Option<C::Value>) -> bool {
        reduces_exactly(self.how(), a, b)
    }

    open spec fn spawns(&self, meaning: (Seq<Seq<C::Value>>, Reduction)) -> bool {
        meaning.1 == self.how()
    }

    open spec fn runs_on(&self, reader: tantivy::SegmentReader) -> bool {
        true
    }

    open spec fn meaning_on(&self, ctx: AggSegmentContext) -> Result<
        <Self::Child as SegmentAgg>::Meaning,
        AggError,
    > {
        match C::stored(*ctx.reader, self.field()) {
            Some(rows) => Ok((rows, self.how())),
            None => Err(AggError::FastFieldNotAvailable(self.field())),
        }
    }

    open spec fn steady(&self) -> bool {
        true
    }

    fn create_fruit(&self) -> (fruit: Option<C::Value>) {
        None
    }

    fn for_segment(&self, ctx: &AggSegmentContext) -> (r: Result<ReduceSegmentAgg<C>, AggError>)
        ensures
            r matches Err(e) ==> e == AggError::FastFieldNotAvailable(self.field()),
    {
        match C::open(ctx.reader, self.field) {
            Some(column) => Ok(ReduceSegmentAgg { column, how: self.how, vals: Vec::new() }),
            None => Err(AggError::FastFieldNotAvailable(self.field)),
        }
    }

    fn merge(&self, acc: &mut Option<C::Value>, fruit: Option<C::Value>) {
        reduce_into(self.how, acc, fruit);
    }

    proof fn law_identity(&self, a: Option<C::Value>) {
    }

    proof fn law_commutative(&self, a: Option<C::Value>, b: Option<C::Value>) {
        lemma_reduced_commutative(self.how(), a, b);
    }

    proof fn law_associative(&self, a: Option<C::Value>, b: Option<C::Value>, c: Option<C::Value>) {
        lemma_reduced_associative(self.how(), a, b, c);
    }

    proof fn law_child(&self, meaning: (Seq<Seq<C::Value>>, Reduction)) {
    }
}

impl<C: FastColumn> SegmentAgg for ReduceSegmentAgg<C> {
    type Fruit = Option<C::Value>;

    type Meaning = (Seq<Seq<C::Value>>, Reduction);

    closed spec fn meaning(&self) -> (Seq<Seq<C::Value>>, Reduction) {
        (self.column.rows(), self.how)
    }

    open spec fn inv(&self) -> bool {
        true
    }

    open spec fn frontier(&self) -> nat {
        0
    }

    open spec fn doc_limit(meaning: (Seq<Seq<C::Value>>, Reduction)) -> nat {
        meaning.0.len()
    }

    open spec fn fruit_ok(meaning: (Seq<Seq<C::Value>>, Reduction), fruit: Option<C::Value>) -> bool {
        true
    }

    open spec fn empty(meaning: (Seq<Seq<C::Value>>, Reduction)) -> Option<C::Value> {
        None
    }

    open spec fn merged(
        meaning: (Seq<Seq<C::Value>>, Reduction),
        a: Option<C::Value>,
        b: Option<C::Value>,
    ) -> Option<C::Value> {
        reduced(meaning.1, a, b)
    }

    open spec fn contributions(
        meaning: (Seq<Seq<C::Value>>, Reduction),
        doc: DocId,
        score: ScoreBits,
    ) -> Seq<Option<C::Value>> {
        if doc < meaning.0.len() {
            meaning.0[doc as int].map_values(|value: C::Value| Some(value))
        } else {
            Seq::empty()
        }
    }

    fn create_fruit(&self) -> (fruit: Option<C::Value>) {
        None
    }

    proof fn law_empty(meaning: (Seq<Seq<C::Value>>, Reduction), a: Option<C::Value>) {
    }

    fn collect(&mut self, doc: DocId, score: ScoreBits, output: &mut Option<C::Value>) {
        self.column.read(doc, &mut self.vals);
        let ghost meaning = self.meaning();
        let ghost merge = |a: Option<C::Value>, b: Option<C::Value>| Self::merged(meaning, a, b);
        let ghost start = *output;
        let ghost deltas = self.vals@.map_values(|value: C::Value| Some(value));
        let mut i: usize = 0;
        while i < self.vals.len()
            invariant
                i <= self.vals.len(),
                meaning.1 == self.how,
                merge == |a: Option<C::Value>, b: Option<C::Value>| Self::merged(meaning, a, b),
                deltas == self.vals@.map_values(|value: C::Value| Some(value)),
                *output == folded(merge, start, deltas.take(i as int)),
            decreases self.vals.len() - i,
        {
            proof {
                assert(deltas.take(i + 1).drop_last() =~= deltas.take(i as int));
                assert(deltas.take(i + 1).last() == Some(self.vals@[i as int]));
            }
            reduce_into(self.how, output, Some(self.vals[i]));
            i += 1;
        }
        proof {
            assert(deltas.take(i as int) =~= deltas);
        }
    }
}

/// The smallest of the values in the field's single-valued `u64` column.
pub fn min_agg_u64(field: tantivy::schema::Field) -> (agg: ReduceAgg<U64Column>)
    ensures
        agg.field() == field,
        agg.how() == Reduction::Min,
{
    ReduceAgg::new(field, Reduction::Min)
}

/// The smallest of the values in the field's single-valued `i64` column.
pub fn min_agg_i64(field: tantivy::schema::Field) -> (agg: ReduceAgg<I64Column>)
    ensures
        agg.field() == field,
        agg.how() == Reduction::Min,
{
    ReduceAgg::new(field, Reduction::Min)
}

/// The smallest of the values in the field's multi-valued `u64` column.
pub fn min_agg_u64s(field: tantivy::schema::Field) -> (agg: ReduceAgg<U64sColumn>)
    ensures
        agg.field() == field,
        agg.how() == Reduction::Min,
{
    ReduceAgg::new(field, Reduction::Min)
}

/// The smallest of the values in the field's multi-valued `i64` column.
pub fn min_agg_i64s(field: tantivy::schema::Field) -> (agg: ReduceAgg<I64sColumn>)
    ensures
        agg.field() == field,
        agg.how() == Reduction::Min,
{
    ReduceAgg::new(field, Reduction::Min)
}

/// The largest of the values in the field's single-valued `u64` column.
pub fn max_agg_u64(field: tantivy::schema::Field) -> (agg: ReduceAgg<U64Column>)
    ensures
        agg.field() == field,
        agg.how() == Reduction::Max,
{
    ReduceAgg::new(field, Reduction::Max)
}

/// The largest of the values in the field's single-valued `i64` column.
pub fn max_agg_i64(field: tantivy::schema::Field) -> (agg: ReduceAgg<I64Column>)
    ensures
        agg.field() == field,
        agg.how() == Reduction::Max,
{
    ReduceAgg::new(field, Reduction::Max)
}

/// The largest of the values in the field's multi-valued `u64` column.
pub fn max_agg_u64s(field: tantivy::schema::Field) -> (agg: ReduceAgg<U64sColumn>)
    ensures
        agg.field() == field,
        agg.how() == Reduction::Max,
{
    ReduceAgg::new(field, Reduction::Max)
}

/// The largest of the values in the field's multi-valued `i64` column.
pub fn max_agg_i64s(field: tantivy::schema::Field) -> (agg: ReduceAgg<I64sColumn>)
    ensures
        agg.field() == field,
        agg.how() == Reduction::Max,
{
    ReduceAgg::new(field, Reduction::Max)
}

/// The sum of the values in the field's single-valued `u64` column.
/// The sum stops at the ends of the range of its type.
pub fn sum_agg_u64(field: tantivy::schema::Field) -> (agg: ReduceAgg<U64Column>)
    ensures
        agg.field() == field,
        agg.how() == Reduction::Sum,
{
    ReduceAgg::new(field, Reduction::Sum)
}

/// The sum of the values in the field's single-valued `i64` column.
/// The sum stops at the ends of the range of its type.
pub fn sum_agg_i64(field: tantivy::schema::Field) -> (agg: ReduceAgg<I64Column>)
    ensures
        agg.field() == field,
        agg.how() == Reduction::Sum,
{
    ReduceAgg::new(field, Reduction::Sum)
}

/// The sum of the values in the field's multi-valued `u64` column.
/// The sum stops at the ends of the range of its type.
pub fn sum_agg_u64s(field: tantivy::schema::Field) -> (agg: ReduceAgg<U64sColumn>)
    ensures
        agg.field() == field,
        agg.how() == Reduction::Sum,
{
    ReduceAgg::new(field, Reduction::Sum)
}

/// The sum of the values in the field's multi-valued `i64` column.
/// The sum stops at the ends of the range of its type.
pub fn sum_agg_i64s(field: tantivy::schema::Field) -> (agg: ReduceAgg<I64sColumn>)
    ensures
        agg.field() == field,
        agg.how() == Reduction::Sum,
{
    ReduceAgg::new(field, Reduction::Sum)
}

/// The earliest of the dates of the field, in seconds since the epoch.
pub fn min_agg_date(field: tantivy::schema::Field) -> (agg: ReduceAgg<DateColumn>)
    ensures
        agg.field() == field,
        agg.how() == Reduction::Min,
{
    ReduceAgg::new(field, Reduction::Min)
}

/// The earliest of the dates of the field, in seconds since the epoch.
pub fn min_agg_dates(field: tantivy::schema::Field) -> (agg: ReduceAgg<DatesColumn>)
    ensures
        agg.field() == field,
        agg.how() == Reduction::Min,
{
    ReduceAgg::new(field, Reduction::Min)
}

/// The latest of the dates of the field, in seconds since the epoch.
pub fn max_agg_date(field: tantivy::schema::Field) -> (agg: ReduceAgg<DateColumn>)
    ensures
        agg.field() == field,
        agg.how() == Reduction::Max,
{
    ReduceAgg::new(field, Reduction::Max)
}

/// The latest of the dates of the field, in seconds since the epoch.
pub fn max_agg_dates(field: tantivy::schema::Field) -> (agg: ReduceAgg<DatesColumn>)
    ensures
        agg.field() == field,
        agg.how() == Reduction::Max,
{
    ReduceAgg::new(field, Reduction::Max)
}

} // verus!
