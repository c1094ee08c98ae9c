use vstd::prelude::*;
use crate::agg::{
    lemma_folded_through, Agg, AggError, AggSegmentContext, FruitModel, ModelOf, PreparedAgg,
    SegmentAgg,
};
use crate::index::{DocId, ScoreBits};

verus! {

/// A value of one of two shapes, tagged with the side it belongs to.
#[derive(PartialEq, Debug)]
pub enum Either<L, R> {
    Left(L),
    Right(R),
}

impl<L, R> Either<L, R> {
    /// Borrows the content, keeping the side.
    pub fn as_ref(&self) -> (r: Either<&L, &R>)
        ensures
            r == (match *self {
                Either::Left(v) => Either::<&L, &R>::Left(&v),
                Either::Right(v) => Either::<&L, &R>::Right(&v),
            }),
    {
        match self {
            Either::Left(v) => Either::Left(v),
            Either::Right(v) => Either::Right(v),
        }
    }

    /// Applies the function of the side that is present and keeps the side.
    pub fn map<LF, RF, LT, RT>(self, left_fn: LF, right_fn: RF) -> (r: Either<LT, RT>)
        where
            LF: FnOnce(L) -> LT,
            RF: FnOnce(R) -> RT,
        requires
            self matches Either::Left(v) ==> call_requires(left_fn, (v,)),
            self matches Either::Right(v) ==> call_requires(right_fn, (v,)),
        ensures
            match self {
                Either::Left(v) => r matches Either::Left(w) && call_ensures(left_fn, (v,), w),
                Either::Right(v) => r matches Either::Right(w) && call_ensures(right_fn, (v,), w),
            },
    {
        match self {
            Either::Left(v) => Either::Left(left_fn(v)),
            Either::Right(v) => Either::Right(right_fn(v)),
        }
    }

    /// Applies the function of the side that is present and drops the side.
    pub fn unwrap<LF, RF, T>(self, left_fn: LF, right_fn: RF) -> (r: T)
        where
            LF: FnOnce(L) -> T,
            RF: FnOnce(R) -> T,
        requires
            self matches Either::Left(v) ==> call_requires(left_fn, (v,)),
            self matches Either::Right(v) ==> call_requires(right_fn, (v,)),
        ensures
            match self {
                Either::Left(v) => call_ensures(left_fn, (v,), r),
                Either::Right(v) => call_ensures(right_fn, (v,), r),
            },
    {
        match self {
            Either::Left(v) => left_fn(v),
            Either::Right(v) => right_fn(v),
        }
    }

    /// The content of a left value.
    pub fn unwrap_left(self) -> (r: L)
        requires
            self is Left,
        ensures
            self == Either::<L, R>::Left(r),
    {
        match self {
            Either::Left(v) => v,
            Either::Right(_) => unreached(),
        }
    }

    /// The content of a right value.
    pub fn unwrap_right(self) -> (r: R)
        requires
            self is Right,
        ensures
            self == Either::<L, R>::Right(r),
    {
        match self {
            Either::Right(v) => v,
            Either::Left(_) => unreached(),
        }
    }
}

impl<L: FruitModel, R: FruitModel> FruitModel for Either<L, R> {
    type Model = Either<L::Model, R::Model>;

    open spec fn model(&self) -> Either<L::Model, R::Model> {
        match *self {
            Either::Left(fruit) => Either::Left(fruit.model()),
            Either::Right(fruit) => Either::Right(fruit.model()),
        }
    }
}

/// One of two aggregators, chosen when the aggregation is built. The fruit
/// tells which one it was.
pub struct EitherAgg<L, R> {
    which: Either<L, R>,
}

/// The chosen aggregator, bound to a searcher.
pub struct EitherPreparedAgg<L, R> {
    which: Either<L, R>,
}

/// The chosen aggregator on one segment.
pub struct EitherSegmentAgg<L, R> {
    which: Either<L, R>,
}

/// The aggregation that runs the aggregator of the side that is given and
/// tags its fruit with the side.
pub fn either_agg<L: Agg, R: Agg>(agg: Either<L, R>) -> (r: EitherAgg<L, R>)
    ensures
        r.which() == agg,
{
    EitherAgg { which: agg }
}

impl<L: Agg, R: Agg> EitherAgg<L, R> {
    pub closed spec fn which(&self) -> Either<L, R> {
        self.which
    }
}

impl<L: PreparedAgg, R: PreparedAgg> EitherPreparedAgg<L, R> {
    pub closed spec fn which(&self) -> Either<L, R> {
        self.which
    }
}

impl<L: SegmentAgg, R: SegmentAgg> EitherSegmentAgg<L, R> {
    pub closed spec fn which(&self) -> Either<L, R> {
        self.which
    }
}

impl<L: Agg, R: Agg> Agg for EitherAgg<L, R> {
    type Fruit = Either<L::Fruit, R::Fruit>;

    type Child = EitherPreparedAgg<L::Child, R::Child>;

    open spec fn leaf_scoring(&self) -> Seq<bool> {
        match self.which() {
            Either::Left(agg) => agg.leaf_scoring(),
            Either::Right(agg) => agg.leaf_scoring(),
        }
    }

    open spec fn inv(&self) -> bool {
        match self.which() {
            Either::Left(agg) => agg.inv(),
            Either::Right(agg) => agg.inv(),
        }
    }

    open spec fn steady(&self) -> bool {
        match self.which() {
            Either::Left(agg) => agg.steady(),
            Either::Right(agg) => agg.steady(),
        }
    }

    open spec fn runs_on(&self, searcher: tantivy::Searcher) -> bool {
        match self.which() {
            Either::Left(agg) => agg.runs_on(searcher),
            Either::Right(agg) => agg.runs_on(searcher),
        }
    }

    open spec fn prepare_error(&self, searcher: tantivy::Searcher) -> Option<AggError> {
        match self.which() {
            Either::Left(agg) => agg.prepare_error(searcher),
            Either::Right(agg) => agg.prepare_error(searcher),
        }
    }

    open spec fn prepared_by(&self, searcher: tantivy::Searcher, prepared: Self::Child) -> bool {
        match (self.which(), prepared.which()) {
            (Either::Left(agg), Either::Left(p)) => agg.prepared_by(searcher, p),
            (Either::Right(agg), Either::Right(p)) => agg.prepared_by(searcher, p),
            _ => false,
        }
    }

    open spec fn prepares(&self, prepared: Self::Child) -> bool {
        match (self.which(), prepared.which()) {
            (Either::Left(agg), Either::Left(p)) => agg.prepares(p),
            (Either::Right(agg), Either::Right(p)) => agg.prepares(p),
            _ => false,
        }
    }

    fn prepare(&self, searcher: &tantivy::Searcher) -> (r: Result<Self::Child, AggError>) {
        match &self.which {
            Either::Left(agg) => match agg.prepare(searcher) {
                Ok(prepared) => Ok(EitherPreparedAgg { which: Either::Left(prepared) }),
                Err(e) => Err(e),
            },
            Either::Right(agg) => match agg.prepare(searcher) {
                Ok(prepared) => Ok(EitherPreparedAgg { which: Either::Right(prepared) }),
                Err(e) => Err(e),
            },
        }
    }

    fn requires_scoring(&self) -> (scoring: bool) {
        match &self.which {
            Either::Left(agg) => agg.requires_scoring(),
            Either::Right(agg) => agg.requires_scoring(),
        }
    }
}

impl<L: PreparedAgg, R: PreparedAgg> PreparedAgg for EitherPreparedAgg<L, R> {
    type Fruit = Either<L::Fruit, R::Fruit>;

    type Child = EitherSegmentAgg<L::Child, R::Child>;

    open spec fn inv(&self) -> bool {
        match self.which() {
            Either::Left(agg) => agg.inv(),
            Either::Right(agg) => agg.inv(),
        }
    }

    open spec fn fruit_ok(
        &self,
        fruit: ModelOf<Self::Fruit>,
    ) -> bool {
        match (self.which(), fruit) {
            (Either::Left(agg), Either::Left(f)) => agg.fruit_ok(f),
            (Either::Right(agg), Either::Right(f)) => agg.fruit_ok(f),
            _ => false,
        }
    }

    open spec fn empty(&self) -> ModelOf<Self::Fruit> {
        match self.which() {
            Either::Left(agg) => Either::Left(agg.empty()),
            Either::Right(agg) => Either::Right(agg.empty()),
        }
    }

    open spec fn merged(
        &self,
        a: ModelOf<Self::Fruit>,
        b: ModelOf<Self::Fruit>,
    ) -> ModelOf<Self::Fruit> {
        match (self.which(), a, b) {
            (Either::Left(agg), Either::Left(x), Either::Left(y)) => Either::Left(agg.merged(x, y)),
            (Either::Right(agg), Either::Right(x), Either::Right(y)) => Either::Right(
                agg.merged(x, y),
            ),
            _ => a,
        }
    }

    open spec fn fits(
        &self,
        a: ModelOf<Self::Fruit>,
        b: ModelOf<Self::Fruit>,
    ) -> bool {
        match (self.which(), a, b) {
            (Either::Left(agg), Either::Left(x), Either::Left(y)) => agg.fits(x, y),
            (Either::Right(agg), Either::Right(x), Either::Right(y)) => agg.fits(x, y),
            _ => true,
        }
    }

    open spec fn spawns(
        &self,
        meaning: Either<<L::Child as SegmentAgg>::Meaning, <R::Child as SegmentAgg>::Meaning>,
    ) -> bool {
        match (self.which(), meaning) {
            (Either::Left(agg), Either::Left(m)) => agg.spawns(m),
            (Either::Right(agg), Either::Right(m)) => agg.spawns(m),
            _ => false,
        }
    }

    open spec fn runs_on(&self, reader: tantivy::SegmentReader) -> bool {
        match self.which() {
            Either::Left(agg) => agg.runs_on(reader),
            Either::Right(agg) => agg.runs_on(reader),
        }
    }

    open spec fn meaning_on(&self, ctx: AggSegmentContext) -> Result<
        <Self::Child as SegmentAgg>::Meaning,
        AggError,
    > {
        match self.which() {
            Either::Left(agg) => match agg.meaning_on(ctx) {
                Ok(meaning) => Ok(Either::Left(meaning)),
                Err(e) => Err(e),
            },
            Either::Right(agg) => match agg.meaning_on(ctx) {
                Ok(meaning) => Ok(Either::Right(meaning)),
                Err(e) => Err(e),
            },
        }
    }

    open spec fn steady(&self) -> bool {
        match self.which() {
            Either::Left(agg) => agg.steady(),
            Either::Right(agg) => agg.steady(),
        }
    }

    fn create_fruit(&self) -> (fruit: Self::Fruit) {
        match &self.which {
            Either::Left(agg) => Either::Left(agg.create_fruit()),
            Either::Right(agg) => Either::Right(agg.create_fruit()),
        }
    }

    fn for_segment(&self, ctx: &AggSegmentContext) -> (r: Result<Self::Child, AggError>) {
        match &self.which {
            Either::Left(agg) => match agg.for_segment(ctx) {
                Ok(child) => Ok(EitherSegmentAgg { which: Either::Left(child) }),
                Err(e) => Err(e),
            },
            Either::Right(agg) => match agg.for_segment(ctx) {
                Ok(child) => Ok(EitherSegmentAgg { which: Either::Right(child) }),
                Err(e) => Err(e),
            },
        }
    }

    fn merge(&self, acc: &mut Self::Fruit, fruit: Self::Fruit) {
        match (&self.which, acc) {
            (Either::Left(agg), Either::Left(acc)) => {
                agg.merge(acc, fruit.unwrap_left());
            },
            (Either::Right(agg), Either::Right(acc)) => {
                agg.merge(acc, fruit.unwrap_right());
            },
            _ => {
                assert(false);
            },
        }
    }

    proof fn law_identity(
        &self,
        a: ModelOf<Self::Fruit>,
    ) {
        match (self.which(), a) {
            (Either::Left(agg), Either::Left(x)) => agg.law_identity(x),
            (Either::Right(agg), Either::Right(x)) => agg.law_identity(x),
            (Either::Left(agg), _) => agg.law_identity(agg.empty()),
            (Either::Right(agg), _) => agg.law_identity(agg.empty()),
        }
    }

    proof fn law_commutative(
        &self,
        a: ModelOf<Self::Fruit>,
        b: ModelOf<Self::Fruit>,
    ) {
        match (self.which(), a, b) {
            (Either::Left(agg), Either::Left(x), Either::Left(y)) => agg.law_commutative(x, y),
            (Either::Right(agg), Either::Right(x), Either::Right(y)) => agg.law_commutative(x, y),
            _ => {},
        }
    }

    proof fn law_associative(
        &self,
        a: ModelOf<Self::Fruit>,
        b: ModelOf<Self::Fruit>,
        c: ModelOf<Self::Fruit>,
    ) {
        match (self.which(), a, b, c) {
            (Either::Left(agg), Either::Left(x), Either::Left(y), Either::Left(z)) => {
                agg.law_associative(x, y, z)
            },
            (Either::Right(agg), Either::Right(x), Either::Right(y), Either::Right(z)) => {
                agg.law_associative(x, y, z)
            },
            _ => {},
        }
    }

    proof fn law_child(
        &self,
        meaning: Either<<L::Child as SegmentAgg>::Meaning, <R::Child as SegmentAgg>::Meaning>,
    ) {
        match (self.which(), meaning) {
            (Either::Left(agg), Either::Left(m)) => {
                agg.law_child(m);
                assert forall|doc: DocId, score: ScoreBits, i: int|
                    0 <= i < Self::Child::contributions(meaning, doc, score).len() implies self.fruit_ok(
                    #[trigger] Self::Child::contributions(meaning, doc, score)[i],
                ) by {
                    let inner = L::Child::contributions(m, doc, score);
                    assert(agg.fruit_ok(inner[i]));
                }
            },
            (Either::Right(agg), Either::Right(m)) => {
                agg.law_child(m);
                assert forall|doc: DocId, score: ScoreBits, i: int|
                    0 <= i < Self::Child::contributions(meaning, doc, score).len() implies self.fruit_ok(
                    #[trigger] Self::Child::contributions(meaning, doc, score)[i],
                ) by {
                    let inner = R::Child::contributions(m, doc, score);
                    assert(agg.fruit_ok(inner[i]));
                }
            },
            _ => {},
        }
    }
}

impl<L: SegmentAgg, R: SegmentAgg> SegmentAgg for EitherSegmentAgg<L, R> {
    type Fruit = Either<L::Fruit, R::Fruit>;

    type Meaning = Either<L::Meaning, R::Meaning>;

    open spec fn meaning(&self) -> Self::Meaning {
        match self.which() {
            Either::Left(agg) => Either::Left(agg.meaning()),
            Either::Right(agg) => Either::Right(agg.meaning()),
        }
    }

    open spec fn inv(&self) -> bool {
        match self.which() {
            Either::Left(agg) => agg.inv(),
            Either::Right(agg) => agg.inv(),
        }
    }

    open spec fn frontier(&self) -> nat {
        match self.which() {
            Either::Left(agg) => agg.frontier(),
            Either::Right(agg) => agg.frontier(),
        }
    }

    open spec fn doc_limit(meaning: Self::Meaning) -> nat {
        match meaning {
            Either::Left(m) => L::doc_limit(m),
            Either::Right(m) => R::doc_limit(m),
        }
    }

    open spec fn fruit_ok(
        meaning: Self::Meaning,
        fruit: ModelOf<Self::Fruit>,
    ) -> bool {
        match (meaning, fruit) {
            (Either::Left(m), Either::Left(f)) => L::fruit_ok(m, f),
            (Either::Right(m), Either::Right(f)) => R::fruit_ok(m, f),
            _ => false,
        }
    }

    open spec fn empty(meaning: Self::Meaning) -> ModelOf<Self::Fruit> {
        match meaning {
            Either::Left(m) => Either::Left(L::empty(m)),
            Either::Right(m) => Either::Right(R::empty(m)),
        }
    }

    open spec fn merged(
        meaning: Self::Meaning,
        a: ModelOf<Self::Fruit>,
        b: ModelOf<Self::Fruit>,
    ) -> ModelOf<Self::Fruit> {
        match (meaning, a, b) {
            (Either::Left(m), Either::Left(x), Either::Left(y)) => Either::Left(L::merged(m, x, y)),
            (Either::Right(m), Either::Right(x), Either::Right(y)) => Either::Right(
                R::merged(m, x, y),
            ),
            _ => a,
        }
    }

    open spec fn contributions(meaning: Self::Meaning, doc: DocId, score: ScoreBits) -> Seq<
        ModelOf<Self::Fruit>,
    > {
        match meaning {
            Either::Left(m) => L::contributions(m, doc, score).map_values(
                |d: ModelOf<L::Fruit>|
                    Either::<ModelOf<L::Fruit>, ModelOf<R::Fruit>>::Left(
                        d,
                    ),
            ),
            Either::Right(m) => R::contributions(m, doc, score).map_values(
                |d: ModelOf<R::Fruit>|
                    Either::<ModelOf<L::Fruit>, ModelOf<R::Fruit>>::Right(
                        d,
                    ),
            ),
        }
    }

    fn create_fruit(&self) -> (fruit: Self::Fruit) {
        match &self.which {
            Either::Left(agg) => Either::Left(agg.create_fruit()),
            Either::Right(agg) => Either::Right(agg.create_fruit()),
        }
    }

    proof fn law_empty(
        meaning: Self::Meaning,
        a: ModelOf<Self::Fruit>,
    ) {
        match (meaning, a) {
            (Either::Left(m), Either::Left(x)) => L::law_empty(m, x),
            (Either::Right(m), Either::Right(x)) => R::law_empty(m, x),
            _ => {},
        }
    }

    fn collect(&mut self, doc: DocId, score: ScoreBits, output: &mut Self::Fruit) {
        let ghost meaning = self.meaning();
        let ghost outer = |
            a: ModelOf<Self::Fruit>,
            b: ModelOf<Self::Fruit>,
        | Self::merged(meaning, a, b);
        match (&mut self.which, output) {
            (Either::Left(agg), Either::Left(fruit)) => {
                let ghost m = agg.meaning();
                let ghost start = fruit.model();
                agg.collect(doc, score, fruit);
                proof {
                    let wrap = |d: ModelOf<L::Fruit>|
                        Either::<ModelOf<L::Fruit>, ModelOf<R::Fruit>>::Left(
                            d,
                        );
                    lemma_folded_through(
                        |a: ModelOf<L::Fruit>, b: ModelOf<L::Fruit>|
                            L::merged(m, a, b),
                        outer,
                        wrap,
                        wrap,
                        start,
                        L::contributions(m, doc, score),
                    );
                }
            },
            (Either::Right(agg), Either::Right(fruit)) => {
                let ghost m = agg.meaning();
                let ghost start = fruit.model();
                agg.collect(doc, score, fruit);
                proof {
                    let wrap = |d: ModelOf<R::Fruit>|
                        Either::<ModelOf<L::Fruit>, ModelOf<R::Fruit>>::Right(
                            d,
                        );
                    lemma_folded_through(
                        |a: ModelOf<R::Fruit>, b: ModelOf<R::Fruit>|
                            R::merged(m, a, b),
                        outer,
                        wrap,
                        wrap,
                        start,
                        R::contributions(m, doc, score),
                    );
                }
            },
            _ => {
                assert(false);
            },
        }
    }
}

/// One of two aggregators with the same kind of fruit, chosen when the
/// aggregation is built. The fruit does not tell which one it was.
pub struct OneOfAgg<L, R> {
    which: Either<L, R>,
}

/// The chosen aggregator, bound to a searcher.
pub struct OneOfPreparedAgg<L, R> {
    which: Either<L, R>,
}

/// The chosen aggregator on one segment.
pub struct OneOfSegmentAgg<L, R> {
    which: Either<L, R>,
}

/// The aggregation that runs the aggregator of the side that is given.
pub fn one_of_agg<L: Agg, R: Agg<Fruit = L::Fruit>>(either: Either<L, R>) -> (r: OneOfAgg<L, R>)
    ensures
        r.which() == either,
{
    OneOfAgg { which: either }
}

impl<L: Agg, R: Agg<Fruit = L::Fruit>> OneOfAgg<L, R> {
    pub closed spec fn which(&self) -> Either<L, R> {
        self.which
    }
}

impl<L: PreparedAgg, R: PreparedAgg<Fruit = L::Fruit>> OneOfPreparedAgg<L, R> {
    pub closed spec fn which(&self) -> Either<L, R> {
        self.which
    }
}

impl<L: SegmentAgg, R: SegmentAgg<Fruit = L::Fruit>> OneOfSegmentAgg<L, R> {
    pub closed spec fn which(&self) -> Either<L, R> {
        self.which
    }
}

impl<L: Agg, R: Agg<Fruit = L::Fruit>> Agg for OneOfAgg<L, R> {
    type Fruit = L::Fruit;

    type Child = OneOfPreparedAgg<L::Child, R::Child>;

    open spec fn leaf_scoring(&self) -> Seq<bool> {
        match self.which() {
            Either::Left(agg) => agg.leaf_scoring(),
            Either::Right(agg) => agg.leaf_scoring(),
        }
    }

    open spec fn inv(&self) -> bool {
        match self.which() {
            Either::Left(agg) => agg.inv(),
            Either::Right(agg) => agg.inv(),
        }
    }

    open spec fn steady(&self) -> bool {
        match self.which() {
            Either::Left(agg) => agg.steady(),
            Either::Right(agg) => agg.steady(),
        }
    }

    open spec fn runs_on(&self, searcher: tantivy::Searcher) -> bool {
        match self.which() {
            Either::Left(agg) => agg.runs_on(searcher),
            Either::Right(agg) => agg.runs_on(searcher),
        }
    }

    open spec fn prepare_error(&self, searcher: tantivy::Searcher) -> Option<AggError> {
        match self.which() {
            Either::Left(agg) => agg.prepare_error(searcher),
            Either::Right(agg) => agg.prepare_error(searcher),
        }
    }

    open spec fn prepared_by(&self, searcher: tantivy::Searcher, prepared: Self::Child) -> bool {
        match (self.which(), prepared.which()) {
            (Either::Left(agg), Either::Left(p)) => agg.prepared_by(searcher, p),
            (Either::Right(agg), Either::Right(p)) => agg.prepared_by(searcher, p),
            _ => false,
        }
    }

    open spec fn prepares(&self, prepared: Self::Child) -> bool {
        match (self.which(), prepared.which()) {
            (Either::Left(agg), Either::Left(p)) => agg.prepares(p),
            (Either::Right(agg), Either::Right(p)) => agg.prepares(p),
            _ => false,
        }
    }

    fn prepare(&self, searcher: &tantivy::Searcher) -> (r: Result<Self::Child, AggError>) {
        match &self.which {
            Either::Left(agg) => match agg.prepare(searcher) {
                Ok(prepared) => Ok(OneOfPreparedAgg { which: Either::Left(prepared) }),
                Err(e) => Err(e),
            },
            Either::Right(agg) => match agg.prepare(searcher) {
                Ok(prepared) => Ok(OneOfPreparedAgg { which: Either::Right(prepared) }),
                Err(e) => Err(e),
            },
        }
    }

    fn requires_scoring(&self) -> (scoring: bool) {
        match &self.which {
            Either::Left(agg) => agg.requires_scoring(),
            Either::Right(agg) => agg.requires_scoring(),
        }
    }
}

impl<L: PreparedAgg, R: PreparedAgg<Fruit = L::Fruit>> PreparedAgg for OneOfPreparedAgg<L, R> {
    type Fruit = L::Fruit;

    type Child = OneOfSegmentAgg<L::Child, R::Child>;

    open spec fn inv(&self) -> bool {
        match self.which() {
            Either::Left(agg) => agg.inv(),
            Either::Right(agg) => agg.inv(),
        }
    }

    open spec fn fruit_ok(&self, fruit: ModelOf<L::Fruit>) -> bool {
        match self.which() {
            Either::Left(agg) => agg.fruit_ok(fruit),
            Either::Right(agg) => agg.fruit_ok(fruit),
        }
    }

    open spec fn empty(&self) -> ModelOf<L::Fruit> {
        match self.which() {
            Either::Left(agg) => agg.empty(),
            Either::Right(agg) => agg.empty(),
        }
    }

    open spec fn merged(
        &self,
        a: ModelOf<L::Fruit>,
        b: ModelOf<L::Fruit>,
    ) -> ModelOf<L::Fruit> {
        match self.which() {
            Either::Left(agg) => agg.merged(a, b),
            Either::Right(agg) => agg.merged(a, b),
        }
    }

    open spec fn fits(
        &self,
        a: ModelOf<L::Fruit>,
        b: ModelOf<L::Fruit>,
    ) -> bool {
        match self.which() {
            Either::Left(agg) => agg.fits(a, b),
            Either::Right(agg) => agg.fits(a, b),
        }
    }

    open spec fn spawns(
        &self,
        meaning: Either<<L::Child as SegmentAgg>::Meaning, <R::Child as SegmentAgg>::Meaning>,
    ) -> bool {
        match (self.which(), meaning) {
            (Either::Left(agg), Either::Left(m)) => agg.spawns(m),
            (Either::Right(agg), Either::Right(m)) => agg.spawns(m),
            _ => false,
        }
    }

    open spec fn runs_on(&self, reader: tantivy::SegmentReader) -> bool {
        match self.which() {
            Either::Left(agg) => agg.runs_on(reader),
            Either::Right(agg) => agg.runs_on(reader),
        }
    }

    open spec fn meaning_on(&self, ctx: AggSegmentContext) -> Result<
        <Self::Child as SegmentAgg>::Meaning,
        AggError,
    > {
        match self.which() {
            Either::Left(agg) => match agg.meaning_on(ctx) {
                Ok(meaning) => Ok(Either::Left(meaning)),
                Err(e) => Err(e),
            },
            Either::Right(agg) => match agg.meaning_on(ctx) {
                Ok(meaning) => Ok(Either::Right(meaning)),
                Err(e) => Err(e),
            },
        }
    }

    open spec fn steady(&self) -> bool {
        match self.which() {
            Either::Left(agg) => agg.steady(),
            Either::Right(agg) => agg.steady(),
        }
    }

    fn create_fruit(&self) -> (fruit: Self::Fruit) {
        match &self.which {
            Either::Left(agg) => agg.create_fruit(),
            Either::Right(agg) => agg.create_fruit(),
        }
    }

    fn for_segment(&self, ctx: &AggSegmentContext) -> (r: Result<Self::Child, AggError>) {
        match &self.which {
            Either::Left(agg) => match agg.for_segment(ctx) {
                Ok(child) => Ok(OneOfSegmentAgg { which: Either::Left(child) }),
                Err(e) => Err(e),
            },
            Either::Right(agg) => match agg.for_segment(ctx) {
                Ok(child) => Ok(OneOfSegmentAgg { which: Either::Right(child) }),
                Err(e) => Err(e),
            },
        }
    }

    fn merge(&self, acc: &mut Self::Fruit, fruit: Self::Fruit) {
        match &self.which {
            Either::Left(agg) => agg.merge(acc, fruit),
            Either::Right(agg) => agg.merge(acc, fruit),
        }
    }

    proof fn law_identity(&self, a: ModelOf<L::Fruit>) {
        match self.which() {
            Either::Left(agg) => agg.law_identity(a),
            Either::Right(agg) => agg.law_identity(a),
        }
    }

    proof fn law_commutative(
        &self,
        a: ModelOf<L::Fruit>,
        b: ModelOf<L::Fruit>,
    ) {
        match self.which() {
            Either::Left(agg) => agg.law_commutative(a, b),
            Either::Right(agg) => agg.law_commutative(a, b),
        }
    }

    proof fn law_associative(
        &self,
        a: ModelOf<L::Fruit>,
        b: ModelOf<L::Fruit>,
        c: ModelOf<L::Fruit>,
    ) {
        match self.which() {
            Either::Left(agg) => agg.law_associative(a, b, c),
            Either::Right(agg) => agg.law_associative(a, b, c),
        }
    }

    proof fn law_child(
        &self,
        meaning: Either<<L::Child as SegmentAgg>::Meaning, <R::Child as SegmentAgg>::Meaning>,
    ) {
        match (self.which(), meaning) {
            (Either::Left(agg), Either::Left(m)) => agg.law_child(m),
            (Either::Right(agg), Either::Right(m)) => agg.law_child(m),
            _ => {},
        }
    }
}

impl<L: SegmentAgg, R: SegmentAgg<Fruit = L::Fruit>> SegmentAgg for OneOfSegmentAgg<L, R> {
    type Fruit = L::Fruit;

    type Meaning = Either<L::Meaning, R::Meaning>;

    open spec fn meaning(&self) -> Self::Meaning {
        match self.which() {
            Either::Left(agg) => Either::Left(agg.meaning()),
            Either::Right(agg) => Either::Right(agg.meaning()),
        }
    }

    open spec fn inv(&self) -> bool {
        match self.which() {
            Either::Left(agg) => agg.inv(),
            Either::Right(agg) => agg.inv(),
        }
    }

    open spec fn frontier(&self) -> nat {
        match self.which() {
            Either::Left(agg) => agg.frontier(),
            Either::Right(agg) => agg.frontier(),
        }
    }

    open spec fn doc_limit(meaning: Self::Meaning) -> nat {
        match meaning {
            Either::Left(m) => L::doc_limit(m),
            Either::Right(m) => R::doc_limit(m),
        }
    }

    open spec fn fruit_ok(meaning: Self::Meaning, fruit: ModelOf<L::Fruit>) -> bool {
        match meaning {
            Either::Left(m) => L::fruit_ok(m, fruit),
            Either::Right(m) => R::fruit_ok(m, fruit),
        }
    }

    open spec fn empty(meaning: Self::Meaning) -> ModelOf<L::Fruit> {
        match meaning {
            Either::Left(m) => L::empty(m),
            Either::Right(m) => R::empty(m),
        }
    }

    open spec fn merged(
        meaning: Self::Meaning,
        a: ModelOf<L::Fruit>,
        b: ModelOf<L::Fruit>,
    ) -> ModelOf<L::Fruit> {
        match meaning {
            Either::Left(m) => L::merged(m, a, b),
            Either::Right(m) => R::merged(m, a, b),
        }
    }

    open spec fn contributions(meaning: Self::Meaning, doc: DocId, score: ScoreBits) -> Seq<
        ModelOf<L::Fruit>,
    > {
        match meaning {
            Either::Left(m) => L::contributions(m, doc, score),
            Either::Right(m) => R::contributions(m, doc, score),
        }
    }

    fn create_fruit(&self) -> (fruit: Self::Fruit) {
        match &self.which {
            Either::Left(agg) => agg.create_fruit(),
            Either::Right(agg) => agg.create_fruit(),
        }
    }

    proof fn law_empty(meaning: Self::Meaning, a: ModelOf<L::Fruit>) {
        match meaning {
            Either::Left(m) => L::law_empty(m, a),
            Either::Right(m) => R::law_empty(m, a),
        }
    }

    fn collect(&mut self, doc: DocId, score: ScoreBits, output: &mut Self::Fruit) {
        let ghost meaning = self.meaning();
        let ghost start = output.model();
        let ghost outer = |a: ModelOf<L::Fruit>, b: ModelOf<L::Fruit>|
            Self::merged(meaning, a, b);
        match &mut self.which {
            Either::Left(agg) => {
                let ghost m = agg.meaning();
                agg.collect(doc, score, output);
                proof {
                    crate::agg::lemma_folded_alike(
                        |a: ModelOf<L::Fruit>, b: ModelOf<L::Fruit>|
                            L::merged(m, a, b),
                        outer,
                        start,
                        L::contributions(m, doc, score),
                    );
                }
            },
            Either::Right(agg) => {
                let ghost m = agg.meaning();
                agg.collect(doc, score, output);
                proof {
                    crate::agg::lemma_folded_alike(
                        |a: ModelOf<L::Fruit>, b: ModelOf<L::Fruit>|
                            R::merged(m, a, b),
                        outer,
                        start,
                        R::contributions(m, doc, score),
                    );
                }
            },
        }
    }
}

} // verus!
