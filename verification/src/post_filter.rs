//! Restricting an aggregator to the documents that pass a test on the values
//! of their columns.

use vstd::prelude::*;
use core::marker::PhantomData;
use crate::agg::{
    lemma_folded_alike, lemma_folded_one, Agg, AggError, AggSegmentContext, FruitModel, ModelOf,
    PreparedAgg, SegmentAgg,
};
use crate::column::FastColumn;
use crate::index::{DocId, I64Column, I64sColumn, ScoreBits, U64Column, U64sColumn};
use crate::predicate::{Predicate, ValueFilter};

verus! {

/// The test accepts every document and answers alike whenever it is asked
/// about the same document.
pub open spec fn tests_steadily<FFReader, Filter: Fn(&FFReader, DocId, ScoreBits) -> bool>(
    filter: Filter,
) -> bool {
    &&& forall|reader: FFReader, doc: DocId, score: ScoreBits|
        call_requires(filter, (&reader, doc, score))
    &&& forall|reader: FFReader, doc: DocId, score: ScoreBits, x: bool, y: bool|
        call_ensures(filter, (&reader, doc, score), x) && call_ensures(
            filter,
            (&reader, doc, score),
            y,
        ) ==> x == y
}

/// The fetcher accepts every segment and gets the same from a segment
/// whenever it is asked.
pub open spec fn fetches_always<
    FFReader,
    FFReaderFetcher: Fn(&AggSegmentContext) -> Result<FFReader, tantivy::schema::Field>,
>(fetcher: FFReaderFetcher) -> bool {
    &&& forall|ctx: AggSegmentContext| #[trigger] call_requires(fetcher, (&ctx,))
    &&& forall|
        ctx: AggSegmentContext,
        x: Result<FFReader, tantivy::schema::Field>,
        y: Result<FFReader, tantivy::schema::Field>,
    |
        call_ensures(fetcher, (&ctx,), x) && call_ensures(fetcher, (&ctx,), y) ==> x == y
}

/// What the fetcher gets from the segment.
pub open spec fn fetched<
    FFReader,
    FFReaderFetcher: Fn(&AggSegmentContext) -> Result<FFReader, tantivy::schema::Field>,
>(fetcher: FFReaderFetcher, ctx: AggSegmentContext) -> Result<FFReader, tantivy::schema::Field> {
    choose|r: Result<FFReader, tantivy::schema::Field>| call_ensures(fetcher, (&ctx,), r)
}

/// Whether the document passes the test.
pub open spec fn passes<FFReader, Filter: Fn(&FFReader, DocId, ScoreBits) -> bool>(
    filter: Filter,
    reader: FFReader,
    doc: DocId,
    score: ScoreBits,
) -> bool {
    call_ensures(filter, (&reader, doc, score), true)
}

/// Restricts the sub-aggregator to the documents that pass a test of the
/// caller. The test reads what the fetcher has got from the segment.
pub struct PostFilterAgg<FFReaderFetcher, FFReader, Filter, SubAgg> {
    ff_reader_fetcher: FFReaderFetcher,
    filter: Filter,
    sub_agg: SubAgg,
    reader: PhantomData<FFReader>,
}

/// The post-filter, bound to a searcher.
pub struct PostFilterPreparedAgg<FFReaderFetcher, FFReader, Filter, SubAgg> {
    ff_reader_fetcher: FFReaderFetcher,
    filter: Filter,
    sub_agg: SubAgg,
    reader: PhantomData<FFReader>,
}

/// The post-filter on one segment: it holds what the fetcher has got.
pub struct PostFilterSegmentAgg<FFReader, Filter, SubAgg> {
    filter: Filter,
    ff_reader: FFReader,
    sub_agg: SubAgg,
}

/// The aggregation that hands the documents that pass `filter` on to the
/// sub-aggregator. The filter reads what `ff_reader_fetcher` gets from each
/// segment.
pub fn post_filter_agg<FFReaderFetcher, FFReader, Filter, SubAgg>(
    ff_reader_fetcher: FFReaderFetcher,
    filter: Filter,
    sub_agg: SubAgg,
) -> (agg: PostFilterAgg<FFReaderFetcher, FFReader, Filter, SubAgg>) where
    FFReaderFetcher: Fn(&AggSegmentContext) -> Result<FFReader, tantivy::schema::Field> + Copy,
    Filter: Fn(&FFReader, DocId, ScoreBits) -> bool + Copy,
    SubAgg: Agg,

    ensures
        agg.fetcher() == ff_reader_fetcher,
        agg.filter() == filter,
        agg.sub_agg() == sub_agg,
{
    PostFilterAgg { ff_reader_fetcher, filter, sub_agg, reader: PhantomData }
}

impl<FFReaderFetcher, FFReader, Filter, SubAgg> PostFilterAgg<
    FFReaderFetcher,
    FFReader,
    Filter,
    SubAgg,
> {
    pub closed spec fn fetcher(&self) -> FFReaderFetcher {
        self.ff_reader_fetcher
    }

    pub closed spec fn filter(&self) -> Filter {
        self.filter
    }

    pub closed spec fn sub_agg(&self) -> SubAgg {
        self.sub_agg
    }
}

impl<FFReaderFetcher, FFReader, Filter, SubAgg> PostFilterPreparedAgg<
    FFReaderFetcher,
    FFReader,
    Filter,
    SubAgg,
> {
    pub closed spec fn fetcher(&self) -> FFReaderFetcher {
        self.ff_reader_fetcher
    }

    pub closed spec fn filter(&self) -> Filter {
        self.filter
    }

    pub closed spec fn sub_agg(&self) -> SubAgg {
        self.sub_agg
    }
}

impl<FFReader, Filter, SubAgg> PostFilterSegmentAgg<FFReader, Filter, SubAgg> {
    pub closed spec fn reader(&self) -> FFReader {
        self.ff_reader
    }

    pub closed spec fn filter(&self) -> Filter {
        self.filter
    }

    pub closed spec fn sub_agg(&self) -> SubAgg {
        self.sub_agg
    }
}

impl<FFReaderFetcher, FFReader, Filter, SubAgg> Agg for PostFilterAgg<
    FFReaderFetcher,
    FFReader,
    Filter,
    SubAgg,
> where
    FFReaderFetcher: Fn(&AggSegmentContext) -> Result<FFReader, tantivy::schema::Field> + Copy,
    Filter: Fn(&FFReader, DocId, ScoreBits) -> bool + Copy,
    SubAgg: Agg,
 {
    type Fruit = SubAgg::Fruit;

    type Child = PostFilterPreparedAgg<FFReaderFetcher, FFReader, Filter, SubAgg::Child>;

    open spec fn leaf_scoring(&self) -> Seq<bool> {
        self.sub_agg().leaf_scoring()
    }

    open spec fn inv(&self) -> bool {
        &&& self.sub_agg().inv()
        &&& tests_steadily::<FFReader, Filter>(self.filter())
        &&& fetches_always::<FFReader, FFReaderFetcher>(self.fetcher())
    }

    open spec fn steady(&self) -> bool {
        self.sub_agg().steady()
    }

    open spec fn runs_on(&self, searcher: tantivy::Searcher) -> bool {
        self.sub_agg().runs_on(searcher)
    }

    open spec fn prepare_error(&self, searcher: tantivy::Searcher) -> Option<AggError> {
        self.sub_agg().prepare_error(searcher)
    }

    open spec fn prepared_by(&self, searcher: tantivy::Searcher, prepared: Self::Child) -> bool {
        self.sub_agg().prepared_by(searcher, prepared.sub_agg())
    }

    open spec fn prepares(&self, prepared: Self::Child) -> bool {
        &&& prepared.fetcher() == self.fetcher()
        &&& prepared.filter() == self.filter()
        &&& self.sub_agg().prepares(prepared.sub_agg())
    }

    fn prepare(&self, searcher: &tantivy::Searcher) -> (r: Result<Self::Child, AggError>) {
        match self.sub_agg.prepare(searcher) {
            Ok(sub_agg) => Ok(
                PostFilterPreparedAgg {
                    ff_reader_fetcher: self.ff_reader_fetcher,
                    filter: self.filter,
                    sub_agg,
                    reader: PhantomData,
                },
            ),
            Err(e) => Err(e),
        }
    }

    fn requires_scoring(&self) -> (scoring: bool) {
        self.sub_agg.requires_scoring()
    }
}

impl<FFReaderFetcher, FFReader, Filter, SubAgg> PreparedAgg for PostFilterPreparedAgg<
    FFReaderFetcher,
    FFReader,
    Filter,
    SubAgg,
> where
    FFReaderFetcher: Fn(&AggSegmentContext) -> Result<FFReader, tantivy::schema::Field> + Copy,
    Filter: Fn(&FFReader, DocId, ScoreBits) -> bool + Copy,
    SubAgg: PreparedAgg,
 {
    type Fruit = SubAgg::Fruit;

    type Child = PostFilterSegmentAgg<FFReader, Filter, SubAgg::Child>;

    open spec fn inv(&self) -> bool {
        &&& self.sub_agg().inv()
        &&& tests_steadily::<FFReader, Filter>(self.filter())
        &&& fetches_always::<FFReader, FFReaderFetcher>(self.fetcher())
    }

    open spec fn fruit_ok(&self, fruit: ModelOf<SubAgg::Fruit>) -> bool {
        self.sub_agg().fruit_ok(fruit)
    }

    open spec fn empty(&self) -> ModelOf<SubAgg::Fruit> {
        self.sub_agg().empty()
    }

    open spec fn merged(
        &self,
        a: ModelOf<SubAgg::Fruit>,
        b: ModelOf<SubAgg::Fruit>,
    ) -> ModelOf<SubAgg::Fruit> {
        self.sub_agg().merged(a, b)
    }

    open spec fn fits(
        &self,
        a: ModelOf<SubAgg::Fruit>,
        b: ModelOf<SubAgg::Fruit>,
    ) -> bool {
        self.sub_agg().fits(a, b)
    }

    open spec fn spawns(
        &self,
        meaning: (FFReader, Filter, <SubAgg::Child as SegmentAgg>::Meaning),
    ) -> bool {
        meaning.1 == self.filter() && self.sub_agg().spawns(meaning.2)
    }

    open spec fn runs_on(&self, reader: tantivy::SegmentReader) -> bool {
        self.sub_agg().runs_on(reader)
    }

    open spec fn meaning_on(&self, ctx: AggSegmentContext) -> Result<
        <Self::Child as SegmentAgg>::Meaning,
        AggError,
    > {
        match fetched(self.fetcher(), ctx) {
            Ok(reader) => match self.sub_agg().meaning_on(ctx) {
                Ok(meaning) => Ok((reader, self.filter(), meaning)),
                Err(e) => Err(e),
            },
            Err(field) => Err(AggError::FastFieldNotAvailable(field)),
        }
    }

    open spec fn steady(&self) -> bool {
        self.sub_agg().steady()
    }

    fn create_fruit(&self) -> (fruit: Self::Fruit) {
        self.sub_agg.create_fruit()
    }

    fn for_segment(&self, ctx: &AggSegmentContext) -> (r: Result<Self::Child, AggError>)
        ensures
            fetched(self.fetcher(), *ctx) matches Err(field) ==> (r matches Err(e) && e
                == AggError::FastFieldNotAvailable(field)),
    {
        assert(call_requires(self.ff_reader_fetcher, (&*ctx,)));
        let ff_reader = match (self.ff_reader_fetcher)(ctx) {
            Ok(ff_reader) => ff_reader,
            Err(field) => {
                return Err(AggError::FastFieldNotAvailable(field));
            },
        };
        match self.sub_agg.for_segment(ctx) {
            Ok(sub_agg) => Ok(PostFilterSegmentAgg { filter: self.filter, ff_reader, sub_agg }),
            Err(e) => Err(e),
        }
    }

    fn merge(&self, acc: &mut Self::Fruit, fruit: Self::Fruit) {
        self.sub_agg.merge(acc, fruit);
    }

    proof fn law_identity(&self, a: ModelOf<SubAgg::Fruit>) {
        self.sub_agg().law_identity(a);
    }

    proof fn law_commutative(
        &self,
        a: ModelOf<SubAgg::Fruit>,
        b: ModelOf<SubAgg::Fruit>,
    ) {
        self.sub_agg().law_commutative(a, b);
    }

    proof fn law_associative(
        &self,
        a: ModelOf<SubAgg::Fruit>,
        b: ModelOf<SubAgg::Fruit>,
        c: ModelOf<SubAgg::Fruit>,
    ) {
        self.sub_agg().law_associative(a, b, c);
    }

    proof fn law_child(&self, meaning: (FFReader, Filter, <SubAgg::Child as SegmentAgg>::Meaning)) {
        self.sub_agg().law_child(meaning.2);
    }
}

impl<FFReader, Filter, SubAgg> SegmentAgg for PostFilterSegmentAgg<FFReader, Filter, SubAgg> where
    Filter: Fn(&FFReader, DocId, ScoreBits) -> bool,
    SubAgg: SegmentAgg,
 {
    type Fruit = SubAgg::Fruit;

    type Meaning = (FFReader, Filter, SubAgg::Meaning);

    open spec fn meaning(&self) -> Self::Meaning {
        (self.reader(), self.filter(), self.sub_agg().meaning())
    }

    open spec fn inv(&self) -> bool {
        self.sub_agg().inv() && tests_steadily::<FFReader, Filter>(self.filter())
    }

    open spec fn frontier(&self) -> nat {
        self.sub_agg().frontier()
    }

    open spec fn doc_limit(meaning: Self::Meaning) -> nat {
        SubAgg::doc_limit(meaning.2)
    }

    open spec fn fruit_ok(meaning: Self::Meaning, fruit: ModelOf<SubAgg::Fruit>) -> bool {
        SubAgg::fruit_ok(meaning.2, fruit)
    }

    open spec fn empty(meaning: Self::Meaning) -> ModelOf<SubAgg::Fruit> {
        SubAgg::empty(meaning.2)
    }

    open spec fn merged(
        meaning: Self::Meaning,
        a: ModelOf<SubAgg::Fruit>,
        b: ModelOf<SubAgg::Fruit>,
    ) -> ModelOf<SubAgg::Fruit> {
        SubAgg::merged(meaning.2, a, b)
    }

    open spec fn contributions(meaning: Self::Meaning, doc: DocId, score: ScoreBits) -> Seq<
        ModelOf<SubAgg::Fruit>,
    > {
        if passes(meaning.1, meaning.0, doc, score) {
            SubAgg::contributions(meaning.2, doc, score)
        } else {
            Seq::empty()
        }
    }

    fn create_fruit(&self) -> (fruit: Self::Fruit) {
        self.sub_agg.create_fruit()
    }

    proof fn law_empty(meaning: Self::Meaning, a: ModelOf<SubAgg::Fruit>) {
        SubAgg::law_empty(meaning.2, a);
    }

    fn collect(&mut self, doc: DocId, score: ScoreBits, output: &mut Self::Fruit) {
        let ghost meaning = self.meaning();
        if (self.filter)(&self.ff_reader, doc, score) {
            self.sub_agg.collect(doc, score, output);
        } else {
            proof {
                lemma_folded_one(
                    |a: ModelOf<SubAgg::Fruit>, b: ModelOf<SubAgg::Fruit>|
                        Self::merged(meaning, a, b),
                    output.model(),
                    output.model(),
                );
            }
        }
        proof {
            lemma_folded_alike(
                |a: ModelOf<SubAgg::Fruit>, b: ModelOf<SubAgg::Fruit>|
                    SubAgg::merged(meaning.2, a, b),
                |a: ModelOf<SubAgg::Fruit>, b: ModelOf<SubAgg::Fruit>|
                    Self::merged(meaning, a, b),
                old(output).model(),
                SubAgg::contributions(meaning.2, doc, score),
            );
        }
    }
}

/// Whether a value of the row passes.
pub open spec fn any_kept<T>(row: Seq<T>, kept: Set<T>) -> bool {
    exists|i: int| 0 <= i < row.len() && kept.contains(#[trigger] row[i])
}

/// Restricts the sub-aggregator to the documents that hold, in the column
/// of a field, a value that passes the filter.
pub struct PostFilterColumnAgg<C, P, SubAgg> {
    field: tantivy::schema::Field,
    filter: P,
    sub_agg: SubAgg,
    column: PhantomData<C>,
}

/// The post-filter on a column, bound to a searcher.
pub struct PostFilterColumnPreparedAgg<C, P, SubAgg> {
    field: tantivy::schema::Field,
    filter: P,
    sub_agg: SubAgg,
    column: PhantomData<C>,
}

/// The post-filter on a column of one segment. It keeps a buffer for the
/// values of the document at hand.
pub struct PostFilterColumnSegmentAgg<C: FastColumn, P, SubAgg> {
    column: C,
    filter: P,
    sub_agg: SubAgg,
    vals: Vec<C::Value>,
}

impl<C: FastColumn, P: ValueFilter<C::Value>, SubAgg: Agg> PostFilterColumnAgg<C, P, SubAgg> {
    pub closed spec fn field(&self) -> tantivy::schema::Field {
        self.field
    }

    pub closed spec fn filter(&self) -> P {
        self.filter
    }

    pub closed spec fn sub_agg(&self) -> SubAgg {
        self.sub_agg
    }

    /// The aggregation that keeps the documents of which a value in the
    /// column of the field passes the filter.
    pub fn new(field: tantivy::schema::Field, filter: P, sub_agg: SubAgg) -> (agg: Self)
        ensures
            agg.field() == field,
            agg.filter() == filter,
            agg.sub_agg() == sub_agg,
    {
        PostFilterColumnAgg { field, filter, sub_agg, column: PhantomData }
    }
}

impl<C: FastColumn, P: ValueFilter<C::Value>, SubAgg: PreparedAgg> PostFilterColumnPreparedAgg<
    C,
    P,
    SubAgg,
> {
    pub closed spec fn field(&self) -> tantivy::schema::Field {
        self.field
    }

    pub closed spec fn filter(&self) -> P {
        self.filter
    }

    pub closed spec fn sub_agg(&self) -> SubAgg {
        self.sub_agg
    }
}

impl<C: FastColumn, P: ValueFilter<C::Value>, SubAgg: SegmentAgg> PostFilterColumnSegmentAgg<
    C,
    P,
    SubAgg,
> {
    pub closed spec fn rows(&self) -> Seq<Seq<C::Value>> {
        self.column.rows()
    }

    pub closed spec fn filter(&self) -> P {
        self.filter
    }

    pub closed spec fn sub_agg(&self) -> SubAgg {
        self.sub_agg
    }
}

impl<C: FastColumn, P: ValueFilter<C::Value>, SubAgg: Agg> Agg for PostFilterColumnAgg<
    C,
    P,
    SubAgg,
> {
    type Fruit = SubAgg::Fruit;

    type Child = PostFilterColumnPreparedAgg<C, P, SubAgg::Child>;

    open spec fn leaf_scoring(&self) -> Seq<bool> {
        self.sub_agg().leaf_scoring()
    }

    open spec fn inv(&self) -> bool {
        self.filter().inv() && self.sub_agg().inv()
    }

    open spec fn steady(&self) -> bool {
        self.sub_agg().steady()
    }

    open spec fn runs_on(&self, searcher: tantivy::Searcher) -> bool {
        self.sub_agg().runs_on(searcher)
    }

    open spec fn prepare_error(&self, searcher: tantivy::Searcher) -> Option<AggError> {
        self.sub_agg().prepare_error(searcher)
    }

    open spec fn prepared_by(&self, searcher: tantivy::Searcher, prepared: Self::Child) -> bool {
        self.sub_agg().prepared_by(searcher, prepared.sub_agg())
    }

    open spec fn prepares(&self, prepared: Self::Child) -> bool {
        &&& prepared.field() == self.field()
        &&& prepared.filter() == self.filter()
        &&& self.sub_agg().prepares(prepared.sub_agg())
    }

    fn prepare(&self, searcher: &tantivy::Searcher) -> (r: Result<Self::Child, AggError>) {
        match self.sub_agg.prepare(searcher) {
            Ok(sub_agg) => Ok(
                PostFilterColumnPreparedAgg {
                    field: self.field,
                    filter: self.filter,
                    sub_agg,
                    column: PhantomData,
                },
            ),
            Err(e) => Err(e),
        }
    }

    fn requires_scoring(&self) -> (scoring: bool) {
        self.sub_agg.requires_scoring()
    }
}

impl<C: FastColumn, P: ValueFilter<C::Value>, SubAgg: PreparedAgg> PreparedAgg for PostFilterColumnPreparedAgg<
    C,
    P,
    SubAgg,
> {
    type Fruit = SubAgg::Fruit;

    type Child = PostFilterColumnSegmentAgg<C, P, SubAgg::Child>;

    open spec fn inv(&self) -> bool {
        self.filter().inv() && self.sub_agg().inv()
    }

    open spec fn fruit_ok(&self, fruit: ModelOf<SubAgg::Fruit>) -> bool {
        self.sub_agg().fruit_ok(fruit)
    }

    open spec fn empty(&self) -> ModelOf<SubAgg::Fruit> {
        self.sub_agg().empty()
    }

    open spec fn merged(
        &self,
        a: ModelOf<SubAgg::Fruit>,
        b: ModelOf<SubAgg::Fruit>,
    ) -> ModelOf<SubAgg::Fruit> {
        self.sub_agg().merged(a, b)
    }

    open spec fn fits(
        &self,
        a: ModelOf<SubAgg::Fruit>,
        b: ModelOf<SubAgg::Fruit>,
    ) -> bool {
        self.sub_agg().fits(a, b)
    }

    open spec fn spawns(
        &self,
        meaning: (Seq<Seq<C::Value>>, Set<C::Value>, <SubAgg::Child as SegmentAgg>::Meaning),
    ) -> bool {
        &&& meaning.1 == Set::new(|v: C::Value| self.filter().keeps(v))
        &&& self.sub_agg().spawns(meaning.2)
    }

    open spec fn runs_on(&self, reader: tantivy::SegmentReader) -> bool {
        self.sub_agg().runs_on(reader)
    }

    open spec fn meaning_on(&self, ctx: AggSegmentContext) -> Result<
        <Self::Child as SegmentAgg>::Meaning,
        AggError,
    > {
        match C::stored(*ctx.reader, self.field()) {
            Some(rows) => match self.sub_agg().meaning_on(ctx) {
                Ok(meaning) => Ok((rows, Set::new(|v: C::Value| self.filter().keeps(v)), meaning)),
                Err(e) => Err(e),
            },
            None => Err(AggError::FastFieldNotAvailable(self.field())),
        }
    }

    open spec fn steady(&self) -> bool {
        self.sub_agg().steady()
    }

    fn create_fruit(&self) -> (fruit: Self::Fruit) {
        self.sub_agg.create_fruit()
    }

    fn for_segment(&self, ctx: &AggSegmentContext) -> (r: Result<Self::Child, AggError>)
        ensures
            C::stored(*ctx.reader, self.field()) is None ==> (r matches Err(e) && e
                == AggError::FastFieldNotAvailable(self.field())),
    {
        let column = match C::open(ctx.reader, self.field) {
            Some(column) => column,
            None => {
                return Err(AggError::FastFieldNotAvailable(self.field));
            },
        };
        match self.sub_agg.for_segment(ctx) {
            Ok(sub_agg) => Ok(
                PostFilterColumnSegmentAgg {
                    column,
                    filter: self.filter,
                    sub_agg,
                    vals: Vec::new(),
                },
            ),
            Err(e) => Err(e),
        }
    }

    fn merge(&self, acc: &mut Self::Fruit, fruit: Self::Fruit) {
        self.sub_agg.merge(acc, fruit);
    }

    proof fn law_identity(&self, a: ModelOf<SubAgg::Fruit>) {
        self.sub_agg().law_identity(a);
    }

    proof fn law_commutative(
        &self,
        a: ModelOf<SubAgg::Fruit>,
        b: ModelOf<SubAgg::Fruit>,
    ) {
        self.sub_agg().law_commutative(a, b);
    }

    proof fn law_associative(
        &self,
        a: ModelOf<SubAgg::Fruit>,
        b: ModelOf<SubAgg::Fruit>,
        c: ModelOf<SubAgg::Fruit>,
    ) {
        self.sub_agg().law_associative(a, b, c);
    }

    proof fn law_child(
        &self,
        meaning: (Seq<Seq<C::Value>>, Set<C::Value>, <SubAgg::Child as SegmentAgg>::Meaning),
    ) {
        self.sub_agg().law_child(meaning.2);
    }
}

impl<C: FastColumn, P: ValueFilter<C::Value>, SubAgg: SegmentAgg> SegmentAgg for PostFilterColumnSegmentAgg<
    C,
    P,
    SubAgg,
> {
    type Fruit = SubAgg::Fruit;

    type Meaning = (Seq<Seq<C::Value>>, Set<C::Value>, SubAgg::Meaning);

    open spec fn meaning(&self) -> Self::Meaning {
        (self.rows(), Set::new(|v: C::Value| self.filter().keeps(v)), self.sub_agg().meaning())
    }

    open spec fn inv(&self) -> bool {
        self.filter().inv() && self.sub_agg().inv()
    }

    open spec fn frontier(&self) -> nat {
        self.sub_agg().frontier()
    }

    open spec fn doc_limit(meaning: Self::Meaning) -> nat {
        if meaning.0.len() <= SubAgg::doc_limit(meaning.2) {
            meaning.0.len()
        } else {
            SubAgg::doc_limit(meaning.2)
        }
    }

    open spec fn fruit_ok(meaning: Self::Meaning, fruit: ModelOf<SubAgg::Fruit>) -> bool {
        SubAgg::fruit_ok(meaning.2, fruit)
    }

    open spec fn empty(meaning: Self::Meaning) -> ModelOf<SubAgg::Fruit> {
        SubAgg::empty(meaning.2)
    }

    open spec fn merged(
        meaning: Self::Meaning,
        a: ModelOf<SubAgg::Fruit>,
        b: ModelOf<SubAgg::Fruit>,
    ) -> ModelOf<SubAgg::Fruit> {
        SubAgg::merged(meaning.2, a, b)
    }

    open spec fn contributions(meaning: Self::Meaning, doc: DocId, score: ScoreBits) -> Seq<
        ModelOf<SubAgg::Fruit>,
    > {
        if doc < meaning.0.len() && any_kept(meaning.0[doc as int], meaning.1) {
            SubAgg::contributions(meaning.2, doc, score)
        } else {
            Seq::empty()
        }
    }

    fn create_fruit(&self) -> (fruit: Self::Fruit) {
        self.sub_agg.create_fruit()
    }

    proof fn law_empty(meaning: Self::Meaning, a: ModelOf<SubAgg::Fruit>) {
        SubAgg::law_empty(meaning.2, a);
    }

    fn collect(&mut self, doc: DocId, score: ScoreBits, output: &mut Self::Fruit) {
        let ghost meaning = self.meaning();
        self.column.read(doc, &mut self.vals);
        let mut found = false;
        let mut i: usize = 0;
        while i < self.vals.len() && !found
            invariant
                i <= self.vals.len(),
                self.filter().inv(),
                self.meaning() == meaning,
                self.vals@ == meaning.0[doc as int],
                meaning.1 == Set::new(|v: C::Value| self.filter().keeps(v)),
                !found ==> forall|j: int| 0 <= j < i ==> !meaning.1.contains(#[trigger] self.vals@[j]),
                found ==> any_kept(self.vals@, meaning.1),
            decreases self.vals.len() - i + if found { 0int } else { 1int },
        {
            if self.filter.accept(self.vals[i]) {
                found = true;
            } else {
                i += 1;
            }
        }
        if found {
            self.sub_agg.collect(doc, score, output);
        } else {
            proof {
                lemma_folded_one(
                    |a: ModelOf<SubAgg::Fruit>, b: ModelOf<SubAgg::Fruit>|
                        Self::merged(meaning, a, b),
                    output.model(),
                    output.model(),
                );
            }
        }
        proof {
            lemma_folded_alike(
                |a: ModelOf<SubAgg::Fruit>, b: ModelOf<SubAgg::Fruit>|
                    SubAgg::merged(meaning.2, a, b),
                |a: ModelOf<SubAgg::Fruit>, b: ModelOf<SubAgg::Fruit>|
                    Self::merged(meaning, a, b),
                old(output).model(),
                SubAgg::contributions(meaning.2, doc, score),
            );
        }
    }
}

/// Keeps the documents whose value in the field's `u64` column passes the
/// filter.
pub fn post_filter_agg_u64<Filter: Fn(u64) -> bool + Copy, SubAgg: Agg>(
    field: tantivy::schema::Field,
    filter: Filter,
    sub_agg: SubAgg,
) -> (agg: PostFilterColumnAgg<U64Column, Predicate<Filter>, SubAgg>)
    ensures
        agg.field() == field,
        agg.sub_agg() == sub_agg,
        agg.filter() == (Predicate { test: filter }),
{
    PostFilterColumnAgg::new(field, Predicate { test: filter }, sub_agg)
}

/// Keeps the documents whose value in the field's `i64` column passes the
/// filter.
pub fn post_filter_agg_i64<Filter: Fn(i64) -> bool + Copy, SubAgg: Agg>(
    field: tantivy::schema::Field,
    filter: Filter,
    sub_agg: SubAgg,
) -> (agg: PostFilterColumnAgg<I64Column, Predicate<Filter>, SubAgg>)
    ensures
        agg.field() == field,
        agg.sub_agg() == sub_agg,
        agg.filter() == (Predicate { test: filter }),
{
    PostFilterColumnAgg::new(field, Predicate { test: filter }, sub_agg)
}

/// Keeps the documents of which a value in the field's multi-valued `u64`
/// column passes the filter.
pub fn post_filter_agg_u64s<Filter: Fn(u64) -> bool + Copy, SubAgg: Agg>(
    field: tantivy::schema::Field,
    filter: Filter,
    sub_agg: SubAgg,
) -> (agg: PostFilterColumnAgg<U64sColumn, Predicate<Filter>, SubAgg>)
    ensures
        agg.field() == field,
        agg.sub_agg() == sub_agg,
        agg.filter() == (Predicate { test: filter }),
{
    PostFilterColumnAgg::new(field, Predicate { test: filter }, sub_agg)
}

/// Keeps the documents of which a value in the field's multi-valued `i64`
/// column passes the filter.
pub fn post_filter_agg_i64s<Filter: Fn(i64) -> bool + Copy, SubAgg: Agg>(
    field: tantivy::schema::Field,
    filter: Filter,
    sub_agg: SubAgg,
) -> (agg: PostFilterColumnAgg<I64sColumn, Predicate<Filter>, SubAgg>)
    ensures
        agg.field() == field,
        agg.sub_agg() == sub_agg,
        agg.filter() == (Predicate { test: filter }),
{
    PostFilterColumnAgg::new(field, Predicate { test: filter }, sub_agg)
}

} // verus!
