//! A metric that the caller describes by functions: how an empty fruit is
//! made, how a document is added to a fruit, and how two fruits are merged.
//! Fruits of any type can be aggregated this way, as long as the functions
//! obey the laws of a merge; the aggregator takes them on trust.

use vstd::prelude::*;
use core::marker::PhantomData;
use crate::agg::{
    lemma_folded_one, Agg, AggError, AggSegmentContext, FruitModel, PreparedAgg, SegmentAgg,
};
use crate::index::{DocId, ScoreBits};
use crate::post_filter::{fetched, fetches_always};

verus! {

/// The fruit of a metric that the caller has described.
#[derive(Debug, PartialEq)]
pub struct Folded<T>(pub T);

impl<T> FruitModel for Folded<T> {
    type Model = T;

    open spec fn model(&self) -> T {
        self.0
    }
}

/// The empty fruit that the function makes.
pub open spec fn made<T, Create: Fn() -> T>(create: Create) -> T {
    choose|fruit: T| call_ensures(create, (), fruit)
}

/// The fruit that the function makes of a fruit and a document.
pub open spec fn stepped<Reader, T, Step: Fn(&Reader, DocId, ScoreBits, T) -> T>(
    step: Step,
    reader: Reader,
    doc: DocId,
    score: ScoreBits,
    fruit: T,
) -> T {
    choose|next: T| call_ensures(step, (&reader, doc, score, fruit), next)
}

/// The fruit that the function merges two fruits to.
pub open spec fn joined<T, Merge: Fn(T, T) -> T>(merge: Merge, a: T, b: T) -> T {
    choose|fruit: T| call_ensures(merge, (a, b), fruit)
}

/// What the aggregator expects of the caller's functions: they accept every
/// argument and give the same result whenever they are given the same
/// arguments; the merge has the empty fruit as its identity and is
/// commutative and associative; and adding a document to a fruit is merging
/// the fruit with what the document adds to the empty fruit.
pub open spec fn fold_laws<
    Reader,
    T,
    Create: Fn() -> T,
    Step: Fn(&Reader, DocId, ScoreBits, T) -> T,
    Merge: Fn(T, T) -> T,
>(create: Create, step: Step, merge: Merge) -> bool {
    &&& call_requires(create, ())
    &&& forall|x: T, y: T| call_ensures(create, (), x) && call_ensures(create, (), y) ==> x == y
    &&& forall|reader: Reader, doc: DocId, score: ScoreBits, fruit: T|
        call_requires(step, (&reader, doc, score, fruit))
    &&& forall|reader: Reader, doc: DocId, score: ScoreBits, fruit: T, x: T, y: T|
        call_ensures(step, (&reader, doc, score, fruit), x) && call_ensures(
            step,
            (&reader, doc, score, fruit),
            y,
        ) ==> x == y
    &&& forall|a: T, b: T| call_requires(merge, (a, b))
    &&& forall|a: T, b: T, x: T, y: T|
        call_ensures(merge, (a, b), x) && call_ensures(merge, (a, b), y) ==> x == y
    &&& forall|a: T| #[trigger] joined(merge, a, made(create)) == a
    &&& forall|a: T| #[trigger] joined(merge, made(create), a) == a
    &&& forall|a: T, b: T| #[trigger] joined(merge, a, b) == joined(merge, b, a)
    &&& forall|a: T, b: T, c: T| #[trigger]
        joined(merge, joined(merge, a, b), c) == joined(merge, a, joined(merge, b, c))
    &&& forall|reader: Reader, doc: DocId, score: ScoreBits, fruit: T| #[trigger]
        stepped(step, reader, doc, score, fruit) == joined(
            merge,
            fruit,
            stepped(step, reader, doc, score, made(create)),
        )
}

/// A metric described by functions of the caller. The step reads what the
/// fetcher has got from the segment.
pub struct FoldAgg<Fetcher, Reader, T, Create, Step, Merge> {
    fetcher: Fetcher,
    create: Create,
    step: Step,
    merge: Merge,
    scoring: bool,
    of: PhantomData<(Reader, T)>,
}

/// The described metric, bound to a searcher.
pub struct PreparedFoldAgg<Fetcher, Reader, T, Create, Step, Merge> {
    fetcher: Fetcher,
    create: Create,
    step: Step,
    merge: Merge,
    of: PhantomData<(Reader, T)>,
}

/// The described metric on one segment: it holds what the fetcher has got.
pub struct FoldSegmentAgg<Reader, T, Create, Step, Merge> {
    reader: Reader,
    create: Create,
    step: Step,
    merge: Merge,
    of: PhantomData<T>,
}

/// The metric that the functions describe. `scoring` says whether the step
/// reads the score.
pub fn fold_agg<Fetcher, Reader, T, Create, Step, Merge>(
    fetcher: Fetcher,
    create: Create,
    step: Step,
    merge: Merge,
    scoring: bool,
) -> (agg: FoldAgg<Fetcher, Reader, T, Create, Step, Merge>) where
    Fetcher: Fn(&AggSegmentContext) -> Result<Reader, tantivy::schema::Field> + Copy,
    Create: Fn() -> T + Copy,
    Step: Fn(&Reader, DocId, ScoreBits, T) -> T + Copy,
    Merge: Fn(T, T) -> T + Copy,

    ensures
        agg.fetcher() == fetcher,
        agg.create() == create,
        agg.step() == step,
        agg.merge_fn() == merge,
        agg.scoring() == scoring,
{
    FoldAgg { fetcher, create, step, merge, scoring, of: PhantomData }
}

impl<Fetcher, Reader, T, Create, Step, Merge> FoldAgg<Fetcher, Reader, T, Create, Step, Merge> {
    pub closed spec fn fetcher(&self) -> Fetcher {
        self.fetcher
    }

    pub closed spec fn create(&self) -> Create {
        self.create
    }

    pub closed spec fn step(&self) -> Step {
        self.step
    }

    pub closed spec fn merge_fn(&self) -> Merge {
        self.merge
    }

    pub closed spec fn scoring(&self) -> bool {
        self.scoring
    }
}

impl<Fetcher, Reader, T, Create, Step, Merge> PreparedFoldAgg<
    Fetcher,
    Reader,
    T,
    Create,
    Step,
    Merge,
> {
    pub closed spec fn fetcher(&self) -> Fetcher {
        self.fetcher
    }

    pub closed spec fn create(&self) -> Create {
        self.create
    }

    pub closed spec fn step(&self) -> Step {
        self.step
    }

    pub closed spec fn merge_fn(&self) -> Merge {
        self.merge
    }
}

impl<Reader, T, Create, Step, Merge> FoldSegmentAgg<Reader, T, Create, Step, Merge> {
    pub closed spec fn reader(&self) -> Reader {
        self.reader
    }

    pub closed spec fn create(&self) -> Create {
        self.create
    }

    pub closed spec fn step(&self) -> Step {
        self.step
    }

    pub closed spec fn merge_fn(&self) -> Merge {
        self.merge
    }
}

impl<Fetcher, Reader, T, Create, Step, Merge> Agg for FoldAgg<
    Fetcher,
    Reader,
    T,
    Create,
    Step,
    Merge,
> where
    Fetcher: Fn(&AggSegmentContext) -> Result<Reader, tantivy::schema::Field> + Copy,
    Create: Fn() -> T + Copy,
    Step: Fn(&Reader, DocId, ScoreBits, T) -> T + Copy,
    Merge: Fn(T, T) -> T + Copy,
 {
    type Fruit = Folded<T>;

    type Child = PreparedFoldAgg<Fetcher, Reader, T, Create, Step, Merge>;

    open spec fn leaf_scoring(&self) -> Seq<bool> {
        seq![self.scoring()]
    }

    open spec fn inv(&self) -> bool {
        &&& fold_laws::<Reader, T, Create, Step, Merge>(self.create(), self.step(), self.merge_fn())
        &&& fetches_always::<Reader, Fetcher>(self.fetcher())
    }

    open spec fn steady(&self) -> bool {
        true
    }

    open spec fn runs_on(&self, searcher: tantivy::Searcher) -> bool {
        true
    }

    open spec fn prepare_error(&self, searcher: tantivy::Searcher) -> Option<AggError> {
        None
    }

    open spec fn prepared_by(&self, searcher: tantivy::Searcher, prepared: Self::Child) -> bool {
        true
    }

    open spec fn prepares(&self, prepared: Self::Child) -> bool {
        &&& prepared.fetcher() == self.fetcher()
        &&& prepared.create() == self.create()
        &&& prepared.step() == self.step()
        &&& prepared.merge_fn() == self.merge_fn()
    }

    fn prepare(&self, searcher: &tantivy::Searcher) -> (r: Result<Self::Child, AggError>) {
        Ok(
            PreparedFoldAgg {
                fetcher: self.fetcher,
                create: self.create,
                step: self.step,
                merge: self.merge,
                of: PhantomData,
            },
        )
    }

    fn requires_scoring(&self) -> (scoring: bool) {
        assert(self.leaf_scoring().contains(true) == self.scoring()) by {
            assert(self.leaf_scoring()[0] == self.scoring());
        }
        self.scoring
    }
}

impl<Fetcher, Reader, T, Create, Step, Merge> PreparedAgg for PreparedFoldAgg<
    Fetcher,
    Reader,
    T,
    Create,
    Step,
    Merge,
> where
    Fetcher: Fn(&AggSegmentContext) -> Result<Reader, tantivy::schema::Field> + Copy,
    Create: Fn() -> T + Copy,
    Step: Fn(&Reader, DocId, ScoreBits, T) -> T + Copy,
    Merge: Fn(T, T) -> T + Copy,
 {
    type Fruit = Folded<T>;

    type Child = FoldSegmentAgg<Reader, T, Create, Step, Merge>;

    open spec fn inv(&self) -> bool {
        &&& fold_laws::<Reader, T, Create, Step, Merge>(self.create(), self.step(), self.merge_fn())
        &&& fetches_always::<Reader, Fetcher>(self.fetcher())
    }

    open spec fn fruit_ok(&self, fruit: T) -> bool {
        fold_laws::<Reader, T, Create, Step, Merge>(self.create(), self.step(), self.merge_fn())
    }

    open spec fn empty(&self) -> T {
        made(self.create())
    }

    open spec fn merged(&self, a: T, b: T) -> T {
        joined(self.merge_fn(), a, b)
    }

    open spec fn fits(&self, a: T, b: T) -> bool {
        true
    }

    open spec fn spawns(&self, meaning: (Reader, Create, Step, Merge)) -> bool {
        meaning.1 == self.create() && meaning.2 == self.step() && meaning.3 == self.merge_fn()
    }

    open spec fn runs_on(&self, reader: tantivy::SegmentReader) -> bool {
        true
    }

    open spec fn meaning_on(&self, ctx: AggSegmentContext) -> Result<
        <Self::Child as SegmentAgg>::Meaning,
        AggError,
    > {
        match fetched(self.fetcher(), ctx) {
            Ok(reader) => Ok((reader, self.create(), self.step(), self.merge_fn())),
            Err(field) => Err(AggError::FastFieldNotAvailable(field)),
        }
    }

    open spec fn steady(&self) -> bool {
        true
    }

    fn create_fruit(&self) -> (fruit: Self::Fruit) {
        Folded((self.create)())
    }

    fn for_segment(&self, ctx: &AggSegmentContext) -> (r: Result<Self::Child, AggError>)
        ensures
            r matches Err(e) ==> fetched(self.fetcher(), *ctx) matches Err(field) && e
                == AggError::FastFieldNotAvailable(field),
    {
        assert(call_requires(self.fetcher, (&*ctx,)));
        match (self.fetcher)(ctx) {
            Ok(reader) => Ok(
                FoldSegmentAgg {
                    reader,
                    create: self.create,
                    step: self.step,
                    merge: self.merge,
                    of: PhantomData,
                },
            ),
            Err(field) => Err(AggError::FastFieldNotAvailable(field)),
        }
    }

    fn merge(&self, acc: &mut Self::Fruit, fruit: Self::Fruit) {
        let mut taken = (self.create)();
        core::mem::swap(&mut taken, &mut acc.0);
        acc.0 = (self.merge)(taken, fruit.0);
    }

    proof fn law_identity(&self, a: T) {
    }

    proof fn law_commutative(&self, a: T, b: T) {
    }

    proof fn law_associative(&self, a: T, b: T, c: T) {
    }

    proof fn law_child(&self, meaning: (Reader, Create, Step, Merge)) {
    }
}

impl<Reader, T, Create, Step, Merge> SegmentAgg for FoldSegmentAgg<
    Reader,
    T,
    Create,
    Step,
    Merge,
> where
    Create: Fn() -> T + Copy,
    Step: Fn(&Reader, DocId, ScoreBits, T) -> T + Copy,
    Merge: Fn(T, T) -> T + Copy,
 {
    type Fruit = Folded<T>;

    type Meaning = (Reader, Create, Step, Merge);

    open spec fn meaning(&self) -> Self::Meaning {
        (self.reader(), self.create(), self.step(), self.merge_fn())
    }

    open spec fn inv(&self) -> bool {
        fold_laws::<Reader, T, Create, Step, Merge>(self.create(), self.step(), self.merge_fn())
    }

    open spec fn frontier(&self) -> nat {
        0
    }

    open spec fn doc_limit(meaning: Self::Meaning) -> nat {
        0x1_0000_0000
    }

    open spec fn fruit_ok(meaning: Self::Meaning, fruit: T) -> bool {
        fold_laws::<Reader, T, Create, Step, Merge>(meaning.1, meaning.2, meaning.3)
    }

    open spec fn empty(meaning: Self::Meaning) -> T {
        made(meaning.1)
    }

    open spec fn merged(meaning: Self::Meaning, a: T, b: T) -> T {
        joined(meaning.3, a, b)
    }

    open spec fn contributions(meaning: Self::Meaning, doc: DocId, score: ScoreBits) -> Seq<T> {
        seq![stepped(meaning.2, meaning.0, doc, score, made(meaning.1))]
    }

    fn create_fruit(&self) -> (fruit: Self::Fruit) {
        Folded((self.create)())
    }

    proof fn law_empty(meaning: Self::Meaning, a: T) {
    }

    fn collect(&mut self, doc: DocId, score: ScoreBits, output: &mut Self::Fruit) {
        let ghost meaning = self.meaning();
        let ghost start = output.0;
        let mut taken = (self.create)();
        core::mem::swap(&mut taken, &mut output.0);
        output.0 = (self.step)(&self.reader, doc, score, taken);
        proof {
            assert(output.0 == stepped(meaning.2, meaning.0, doc, score, start));
            lemma_folded_one(
                |a: T, b: T| Self::merged(meaning, a, b),
                start,
                stepped(meaning.2, meaning.0, doc, score, made(meaning.1)),
            );
        }
    }
}

} // verus!
