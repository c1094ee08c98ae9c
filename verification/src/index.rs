//! What the aggregations use of the search index: its searcher, its segment
//! readers, their columns and the scorers of its queries. Verus believes the
//! contracts in this file; each one states what the index library documents
//! of the function it names.

use vstd::prelude::*;

verus! {

/// A document id, local to its segment.
pub type DocId = u32;

/// A relevance score, carried as the bit pattern of the number.
pub type ScoreBits = u32;

/// `tantivy::Searcher`: a view of the index at one point in time.
#[verifier::external_type_specification]
#[verifier::external_body]
pub struct ExSearcher(tantivy::Searcher);

/// `tantivy::SegmentReader`: the reader of one segment of the index.
#[verifier::external_type_specification]
#[verifier::external_body]
pub struct ExSegmentReader(tantivy::SegmentReader);

/// `tantivy::TantivyError`: an error of the index library.
#[verifier::external_type_specification]
#[verifier::external_body]
pub struct ExTantivyError(tantivy::TantivyError);

/// `tantivy::schema::Field`: the handle of a field of the schema.
#[verifier::external_type_specification]
#[verifier::external_body]
pub struct ExField(tantivy::schema::Field);

/// The number of document ids that a segment has given out.
pub uninterp spec fn segment_max_doc(reader: tantivy::SegmentReader) -> DocId;

/// The documents of a segment that are marked as deleted.
pub uninterp spec fn segment_deleted(reader: tantivy::SegmentReader) -> Set<DocId>;

/// The readers of the segments that a searcher searches.
pub uninterp spec fn searcher_segments(searcher: tantivy::Searcher) -> Seq<tantivy::SegmentReader>;

/// `Searcher::segment_readers`: the readers of the searcher's segments.
#[verifier::external_body]
pub(crate) fn segment_readers(searcher: &tantivy::Searcher) -> (readers: &[tantivy::SegmentReader])
    ensures
        readers@ == searcher_segments(*searcher),
{
    searcher.segment_readers()
}

/// `SegmentReader::max_doc`: the highest document id of the segment, plus one.
#[verifier::external_body]
pub(crate) fn max_doc(reader: &tantivy::SegmentReader) -> (n: DocId)
    ensures
        n == segment_max_doc(*reader),
{
    reader.max_doc()
}

/// `SegmentReader::is_deleted`: whether the document is marked as deleted.
/// The segment's bit set has a bit for each document id below `max_doc`.
#[verifier::external_body]
pub(crate) fn is_deleted(reader: &tantivy::SegmentReader, doc: DocId) -> (deleted: bool)
    requires
        doc < segment_max_doc(*reader),
    ensures
        deleted == segment_deleted(*reader).contains(doc),
{
    reader.is_deleted(doc)
}

/// A single-valued column of unsigned integers of one segment.
#[verifier::external_body]
pub struct U64Column {
    reader: tantivy::fastfield::FastFieldReader<u64>,
}

/// A single-valued column of signed integers of one segment.
#[verifier::external_body]
pub struct I64Column {
    reader: tantivy::fastfield::FastFieldReader<i64>,
}

/// A multi-valued column of unsigned integers of one segment.
#[verifier::external_body]
pub struct U64sColumn {
    reader: tantivy::fastfield::MultiValueIntFastFieldReader<u64>,
}

/// A multi-valued column of signed integers of one segment.
#[verifier::external_body]
pub struct I64sColumn {
    reader: tantivy::fastfield::MultiValueIntFastFieldReader<i64>,
}

/// A single-valued column of dates of one segment.
#[verifier::external_body]
pub struct DateColumn {
    reader: tantivy::fastfield::FastFieldReader<tantivy::DateTime>,
}

/// A multi-valued column of dates of one segment.
#[verifier::external_body]
pub struct DatesColumn {
    reader: tantivy::fastfield::MultiValueIntFastFieldReader<tantivy::DateTime>,
}

/// The dates of the column, one for each document id, as seconds since the
/// epoch.
pub uninterp spec fn date_column(column: DateColumn) -> Seq<i64>;

/// The dates of the column as seconds since the epoch: for each document id
/// those of the document, in the order in which the document holds them.
pub uninterp spec fn dates_column(column: DatesColumn) -> Seq<Seq<i64>>;

/// The single-valued column of dates that the segment has for the field, if
/// it has one.
pub uninterp spec fn segment_date_column(
    reader: tantivy::SegmentReader,
    field: tantivy::schema::Field,
) -> Option<Seq<i64>>;

/// The multi-valued column of dates that the segment has for the field, if it
/// has one.
pub uninterp spec fn segment_dates_column(
    reader: tantivy::SegmentReader,
    field: tantivy::schema::Field,
) -> Option<Seq<Seq<i64>>>;

/// The values of the column, one for each document id.
pub uninterp spec fn u64_column(column: U64Column) -> Seq<u64>;

/// The values of the column, one for each document id.
pub uninterp spec fn i64_column(column: I64Column) -> Seq<i64>;

/// The values of the column: for each document id those of the document, in
/// the order in which the document holds them.
pub uninterp spec fn u64s_column(column: U64sColumn) -> Seq<Seq<u64>>;

/// The values of the column: for each document id those of the document, in
/// the order in which the document holds them.
pub uninterp spec fn i64s_column(column: I64sColumn) -> Seq<Seq<i64>>;

/// The single-valued unsigned column that the segment has for the field, if it has one.
pub uninterp spec fn segment_u64_column(
    reader: tantivy::SegmentReader,
    field: tantivy::schema::Field,
) -> Option<Seq<u64>>;

/// The single-valued signed column that the segment has for the field, if it has one.
pub uninterp spec fn segment_i64_column(
    reader: tantivy::SegmentReader,
    field: tantivy::schema::Field,
) -> Option<Seq<i64>>;

/// The multi-valued unsigned column that the segment has for the field, if it has one.
pub uninterp spec fn segment_u64s_column(
    reader: tantivy::SegmentReader,
    field: tantivy::schema::Field,
) -> Option<Seq<Seq<u64>>>;

/// The multi-valued signed column that the segment has for the field, if it has one.
pub uninterp spec fn segment_i64s_column(
    reader: tantivy::SegmentReader,
    field: tantivy::schema::Field,
) -> Option<Seq<Seq<i64>>>;

impl U64Column {
    /// `FastFieldReaders::u64`: the column of the field, where the segment has
    /// one of this kind. It holds a value for each document id of the segment.
    #[verifier::external_body]
    pub(crate) fn open(reader: &tantivy::SegmentReader, field: tantivy::schema::Field) -> (r:
        Option<U64Column>)
        ensures
            segment_u64_column(*reader, field) == match r {
                Some(column) => Some(u64_column(column)),
                None => None,
            },
            r matches Some(column) ==> u64_column(column).len() == segment_max_doc(*reader),
    {
        reader.fast_fields().u64(field).map(|reader| U64Column { reader })
    }

    /// `FastFieldReader::get`: the value that the document has in the column.
    #[verifier::external_body]
    pub(crate) fn get(&self, doc: DocId) -> (v: u64)
        requires
            doc < u64_column(*self).len(),
        ensures
            v == u64_column(*self)[doc as int],
    {
        self.reader.get(doc)
    }
}

impl I64Column {
    /// `FastFieldReaders::i64`: the column of the field, where the segment has
    /// one of this kind. It holds a value for each document id of the segment.
    #[verifier::external_body]
    pub(crate) fn open(reader: &tantivy::SegmentReader, field: tantivy::schema::Field) -> (r:
        Option<I64Column>)
        ensures
            segment_i64_column(*reader, field) == match r {
                Some(column) => Some(i64_column(column)),
                None => None,
            },
            r matches Some(column) ==> i64_column(column).len() == segment_max_doc(*reader),
    {
        reader.fast_fields().i64(field).map(|reader| I64Column { reader })
    }

    /// `FastFieldReader::get`: the value that the document has in the column.
    #[verifier::external_body]
    pub(crate) fn get(&self, doc: DocId) -> (v: i64)
        requires
            doc < i64_column(*self).len(),
        ensures
            v == i64_column(*self)[doc as int],
    {
        self.reader.get(doc)
    }
}

impl U64sColumn {
    /// `FastFieldReaders::u64s`: the column of the field, where the segment
    /// has one of this kind. It holds the values of each document id of the
    /// segment.
    #[verifier::external_body]
    pub(crate) fn open(reader: &tantivy::SegmentReader, field: tantivy::schema::Field) -> (r:
        Option<U64sColumn>)
        ensures
            segment_u64s_column(*reader, field) == match r {
                Some(column) => Some(u64s_column(column)),
                None => None,
            },
            r matches Some(column) ==> u64s_column(column).len() == segment_max_doc(*reader),
    {
        reader.fast_fields().u64s(field).map(|reader| U64sColumn { reader })
    }

    /// `MultiValueIntFastFieldReader::get_vals`: replaces the buffer's content
    /// by the values that the document has in the column.
    #[verifier::external_body]
    pub(crate) fn get_vals(&self, doc: DocId, vals: &mut Vec<u64>)
        requires
            doc < u64s_column(*self).len(),
        ensures
            final(vals)@ == u64s_column(*self)[doc as int],
    {
        self.reader.get_vals(doc, vals)
    }
}

impl I64sColumn {
    /// `FastFieldReaders::i64s`: the column of the field, where the segment
    /// has one of this kind. It holds the values of each document id of the
    /// segment.
    #[verifier::external_body]
    pub(crate) fn open(reader: &tantivy::SegmentReader, field: tantivy::schema::Field) -> (r:
        Option<I64sColumn>)
        ensures
            segment_i64s_column(*reader, field) == match r {
                Some(column) => Some(i64s_column(column)),
                None => None,
            },
            r matches Some(column) ==> i64s_column(column).len() == segment_max_doc(*reader),
    {
        reader.fast_fields().i64s(field).map(|reader| I64sColumn { reader })
    }

    /// `MultiValueIntFastFieldReader::get_vals`: replaces the buffer's content
    /// by the values that the document has in the column.
    #[verifier::external_body]
    pub(crate) fn get_vals(&self, doc: DocId, vals: &mut Vec<i64>)
        requires
            doc < i64s_column(*self).len(),
        ensures
            final(vals)@ == i64s_column(*self)[doc as int],
    {
        self.reader.get_vals(doc, vals)
    }
}

impl DateColumn {
    /// `FastFieldReaders::date`: the column of the field, where the segment
    /// has one of this kind. It holds a date for each document id of the
    /// segment.
    #[verifier::external_body]
    pub(crate) fn open(reader: &tantivy::SegmentReader, field: tantivy::schema::Field) -> (r:
        Option<DateColumn>)
        ensures
            segment_date_column(*reader, field) == match r {
                Some(column) => Some(date_column(column)),
                None => None,
            },
            r matches Some(column) ==> date_column(column).len() == segment_max_doc(*reader),
    {
        reader.fast_fields().date(field).map(|reader| DateColumn { reader })
    }

    /// `FastFieldReader::get` and `DateTime::timestamp`: the date that the
    /// document has in the column. A column keeps its dates to the second.
    #[verifier::external_body]
    pub(crate) fn get(&self, doc: DocId) -> (v: i64)
        requires
            doc < date_column(*self).len(),
        ensures
            v == date_column(*self)[doc as int],
    {
        self.reader.get(doc).timestamp()
    }
}

impl DatesColumn {
    /// `FastFieldReaders::dates`: the column of the field, where the segment
    /// has one of this kind. It holds the dates of each document id of the
    /// segment.
    #[verifier::external_body]
    pub(crate) fn open(reader: &tantivy::SegmentReader, field: tantivy::schema::Field) -> (r:
        Option<DatesColumn>)
        ensures
            segment_dates_column(*reader, field) == match r {
                Some(column) => Some(dates_column(column)),
                None => None,
            },
            r matches Some(column) ==> dates_column(column).len() == segment_max_doc(*reader),
    {
        reader.fast_fields().dates(field).map(|reader| DatesColumn { reader })
    }

    /// `MultiValueIntFastFieldReader::get_vals` and `DateTime::timestamp`:
    /// replaces the buffer's content by the dates that the document has in
    /// the column.
    #[verifier::external_body]
    pub(crate) fn get_vals(&self, doc: DocId, vals: &mut Vec<i64>)
        requires
            doc < dates_column(*self).len(),
        ensures
            final(vals)@ == dates_column(*self)[doc as int],
    {
        let mut dates = Vec::new();
        self.reader.get_vals(doc, &mut dates);
        vals.clear();
        vals.extend(dates.into_iter().map(|date| date.timestamp()));
    }
}

/// A query, borrowed from the caller.
#[verifier::external_body]
pub struct QueryRef<'q> {
    pub query: &'q dyn tantivy::query::Query,
}

/// A query compiled against a searcher.
#[verifier::external_body]
pub struct QueryWeight {
    pub weight: Box<dyn tantivy::query::Weight>,
}

/// The cursor over the documents of one segment that match a query, in
/// ascending order of their ids.
#[verifier::external_body]
pub struct SegmentScorer {
    scorer: Box<dyn tantivy::query::Scorer>,
}

/// What a query compiles to against a searcher, with scoring or without: the
/// compiled query, or the error that the query gives there. There is nothing
/// that the query compiles to where it cannot be run on the searcher: where it
/// reads a field that the searcher's schema does not have, or that is not
/// indexed. The index library panics on such a query, when it compiles the
/// query or when it opens a scorer of the compiled query.
pub uninterp spec fn query_weight(
    query: QueryRef,
    searcher: tantivy::Searcher,
    scoring_enabled: bool,
) -> Option<Result<QueryWeight, tantivy::TantivyError>>;

/// Whether the compiled query can be run on the segment: it has been compiled
/// from a query that can be run on a searcher of the segment.
pub uninterp spec fn weight_runs(weight: QueryWeight, reader: tantivy::SegmentReader) -> bool;

/// The scorer that a compiled query gives for a segment, before it has been
/// moved, or the error that the compiled query gives there.
pub uninterp spec fn weight_scorer(weight: QueryWeight, reader: tantivy::SegmentReader) -> Result<
    SegmentScorer,
    tantivy::TantivyError,
>;

/// The documents of a segment that match a compiled query, each with its
/// score, in the order in which a scorer gives them; none where the compiled
/// query gives no scorer for the segment.
pub open spec fn weight_hits(weight: QueryWeight, reader: tantivy::SegmentReader) -> Option<
    Seq<(DocId, ScoreBits)>,
> {
    match weight_scorer(weight, reader) {
        Ok(scorer) => Some(scorer_hits(scorer)),
        Err(_) => None,
    }
}

/// The matching documents that the cursor has not reached yet, each with its
/// score.
pub uninterp spec fn scorer_hits(scorer: SegmentScorer) -> Seq<(DocId, ScoreBits)>;

/// Whether the cursor stands on a matching document. It does not before it
/// has been moved for the first time, nor after it has run past the last
/// match.
pub uninterp spec fn scorer_on_match(scorer: SegmentScorer) -> bool;

/// Whether the cursor has run past the last match. The index library leaves
/// open what a cursor does that is moved after that.
pub uninterp spec fn scorer_spent(scorer: SegmentScorer) -> bool;

/// The matching document under the cursor, with its score, where the cursor
/// stands on a match.
pub uninterp spec fn scorer_at(scorer: SegmentScorer) -> (DocId, ScoreBits);

/// The document ids grow strictly along the sequence.
pub open spec fn ascending(hits: Seq<(DocId, ScoreBits)>) -> bool {
    forall|i: int, j: int| 0 <= i < j < hits.len() ==> hits[i].0 < hits[j].0
}

/// The number of leading hits whose document id is below the target.
pub open spec fn hits_below(hits: Seq<(DocId, ScoreBits)>, target: DocId) -> nat
    decreases hits.len(),
{
    if hits.len() == 0 || hits[0].0 >= target {
        0
    } else {
        1 + hits_below(hits.drop_first(), target)
    }
}

/// How a cursor came to rest after it was asked to skip to a target.
#[derive(Clone, Copy, PartialEq, Eq, Debug)]
pub enum SkipOutcome {
    /// The cursor is on the target.
    Reached,
    /// The target does not match; the cursor is on the first match after it.
    OverStep,
    /// Neither the target nor anything after it matches.
    End,
}

impl<'q> QueryRef<'q> {
    /// `Query::weight`: compiles the query against the searcher. What comes
    /// of it depends on the query, the searcher and the flag alone. The call
    /// may panic where the query cannot be run on the searcher. A query that
    /// can be run on a searcher compiles to what can be run on each segment of
    /// the searcher.
    #[verifier::external_body]
    pub(crate) fn weight(&self, searcher: &tantivy::Searcher, scoring_enabled: bool) -> (r: Result<
        QueryWeight,
        tantivy::TantivyError,
    >)
        requires
            query_weight(*self, *searcher, scoring_enabled) is Some,
        ensures
            query_weight(*self, *searcher, scoring_enabled) == Some(r),
            r matches Ok(weight) ==> forall|i: int|
                0 <= i < searcher_segments(*searcher).len() ==> weight_runs(
                    weight,
                    #[trigger] searcher_segments(*searcher)[i],
                ),
    {
        self.query.weight(searcher, scoring_enabled).map(|weight| QueryWeight { weight })
    }
}

impl QueryWeight {
    /// `Weight::scorer`: a cursor over the documents of the segment that match,
    /// placed before the first of them. A scorer is a sorted set of document
    /// ids. Whether there is a scorer, and what it will give, depends on the
    /// compiled query and the segment alone. The call may panic where the
    /// compiled query cannot be run on the segment.
    #[verifier::external_body]
    pub(crate) fn scorer(&self, reader: &tantivy::SegmentReader) -> (r: Result<
        SegmentScorer,
        tantivy::TantivyError,
    >)
        requires
            weight_runs(*self, *reader),
        ensures
            r == weight_scorer(*self, *reader),
            r matches Ok(scorer) ==> ascending(scorer_hits(scorer)) && !scorer_spent(scorer),
    {
        self.weight.scorer(reader).map(|scorer| SegmentScorer { scorer })
    }
}

impl SegmentScorer {
    /// `DocSet::advance`: moves the cursor to the next match and says whether
    /// there was one. Where there was none, the cursor has run past the last
    /// match.
    #[verifier::external_body]
    pub(crate) fn advance(&mut self) -> (more: bool)
        requires
            !scorer_spent(*old(self)),
        ensures
            more == (scorer_hits(*old(self)).len() > 0),
            more == scorer_on_match(*final(self)),
            more == !scorer_spent(*final(self)),
            more ==> scorer_at(*final(self)) == scorer_hits(*old(self))[0],
            more ==> scorer_hits(*final(self)) == scorer_hits(*old(self)).drop_first(),
            !more ==> scorer_hits(*final(self)).len() == 0,
    {
        tantivy::DocSet::advance(&mut self.scorer)
    }

    /// `DocSet::doc`: the document under the cursor. The call panics where the
    /// cursor stands on no match.
    #[verifier::external_body]
    pub(crate) fn doc(&self) -> (doc: DocId)
        requires
            scorer_on_match(*self),
        ensures
            doc == scorer_at(*self).0,
    {
        tantivy::DocSet::doc(&self.scorer)
    }

    /// `Scorer::score`: the score of the document under the cursor. The cursor
    /// stays where it is. The call panics where the cursor stands on no match.
    #[verifier::external_body]
    pub(crate) fn score(&mut self) -> (score: ScoreBits)
        requires
            scorer_on_match(*old(self)),
        ensures
            score == scorer_at(*old(self)).1,
            scorer_on_match(*final(self)),
            scorer_spent(*final(self)) == scorer_spent(*old(self)),
            scorer_at(*final(self)) == scorer_at(*old(self)),
            scorer_hits(*final(self)) == scorer_hits(*old(self)),
    {
        tantivy::query::Scorer::score(&mut self.scorer).to_bits()
    }

    /// `DocSet::skip_next`: moves the cursor forward, by one match at least,
    /// to the first match that is not below the target.
    #[verifier::external_body]
    pub(crate) fn skip_next(&mut self, target: DocId) -> (outcome: SkipOutcome)
        requires
            !scorer_spent(*old(self)),
        ensures
            scorer_spent(*final(self)) == (outcome == SkipOutcome::End),
            ({
                let hits = scorer_hits(*old(self));
                let k = hits_below(hits, target) as int;
                if k == hits.len() {
                    &&& outcome == SkipOutcome::End
                    &&& !scorer_on_match(*final(self))
                    &&& scorer_hits(*final(self)).len() == 0
                } else {
                    &&& scorer_on_match(*final(self))
                    &&& scorer_at(*final(self)) == hits[k]
                    &&& scorer_hits(*final(self)) == hits.skip(k + 1)
                    &&& outcome == if hits[k].0 == target {
                        SkipOutcome::Reached
                    } else {
                        SkipOutcome::OverStep
                    }
                }
            }),
    {
        match tantivy::DocSet::skip_next(&mut self.scorer, target) {
            tantivy::SkipResult::Reached => SkipOutcome::Reached,
            tantivy::SkipResult::OverStep => SkipOutcome::OverStep,
            tantivy::SkipResult::End => SkipOutcome::End,
        }
    }
}

} // verus!
