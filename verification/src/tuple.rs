//! Tuples of aggregators: the members see the same documents, and the fruit
//! is the tuple of their fruits. Tuples of two to ten members aggregate.

use vstd::prelude::*;
use crate::agg::{
    folded, lemma_folded_one, lemma_folded_parts, lemma_folded_through, Agg, AggError,
    AggSegmentContext, FruitModel, ModelOf, PreparedAgg, SegmentAgg,
};
use crate::index::{DocId, ScoreBits};

verus! {

/// The larger of two numbers.
pub open spec fn highest(a: nat, b: nat) -> nat {
    if a >= b {
        a
    } else {
        b
    }
}

/// The smaller of two numbers.
pub open spec fn lowest(a: nat, b: nat) -> nat {
    if a <= b {
        a
    } else {
        b
    }
}

/// A leaf of two trees put side by side asks for scores where a leaf of
/// either tree does.
pub proof fn lemma_scoring_joins(a: Seq<bool>, b: Seq<bool>)
    ensures
        (a + b).contains(true) == (a.contains(true) || b.contains(true)),
{
    if a.contains(true) {
        let i = choose|i: int| 0 <= i < a.len() && a[i] == true;
        assert((a + b)[i] == true);
    }
    if b.contains(true) {
        let i = choose|i: int| 0 <= i < b.len() && b[i] == true;
        assert((a + b)[a.len() + i] == true);
    }
    if (a + b).contains(true) {
        let i = choose|i: int| 0 <= i < (a + b).len() && (a + b)[i] == true;
        if i < a.len() {
            assert(a[i] == true);
        } else {
            assert(b[i - a.len()] == true);
        }
    }
}

/// What holds of all items of two sequences holds of all items of their
/// concatenation.
pub proof fn lemma_all_joined<N>(ok: spec_fn(N) -> bool, a: Seq<N>, b: Seq<N>)
    requires
        forall|i: int| 0 <= i < a.len() ==> ok(#[trigger] a[i]),
        forall|i: int| 0 <= i < b.len() ==> ok(#[trigger] b[i]),
    ensures
        forall|i: int| 0 <= i < (a + b).len() ==> ok(#[trigger] (a + b)[i]),
{
    assert forall|i: int| 0 <= i < (a + b).len() implies ok(#[trigger] (a + b)[i]) by {
        if i >= a.len() {
            assert((a + b)[i] == b[i - a.len()]);
        }
    }
}

impl<A1: FruitModel, A2: FruitModel> FruitModel for (A1, A2) {
    type Model = (A1::Model, A2::Model);

    open spec fn model(&self) -> Self::Model {
        (self.0.model(), self.1.model())
    }
}

impl<A1: Agg, A2: Agg> Agg for (A1, A2) {
    type Fruit = (A1::Fruit, A2::Fruit);

    type Child = (A1::Child, A2::Child);

    open spec fn leaf_scoring(&self) -> Seq<bool> {
        self.0.leaf_scoring() + self.1.leaf_scoring()
    }

    open spec fn inv(&self) -> bool {
        self.0.inv() && self.1.inv()
    }

    open spec fn steady(&self) -> bool {
        self.0.steady() && self.1.steady()
    }

    open spec fn runs_on(&self, searcher: tantivy::Searcher) -> bool {
        self.0.runs_on(searcher) && self.1.runs_on(searcher)
    }

    open spec fn prepare_error(&self, searcher: tantivy::Searcher) -> Option<AggError> {
        if self.0.prepare_error(searcher) is Some {
            self.0.prepare_error(searcher)
        } else {
            self.1.prepare_error(searcher)
        }
    }

    open spec fn prepared_by(&self, searcher: tantivy::Searcher, prepared: Self::Child) -> bool {
        self.0.prepared_by(searcher, prepared.0) && self.1.prepared_by(searcher, prepared.1)
    }

    open spec fn prepares(&self, prepared: Self::Child) -> bool {
        self.0.prepares(prepared.0) && self.1.prepares(prepared.1)
    }

    fn prepare(&self, searcher: &tantivy::Searcher) -> (r: Result<Self::Child, AggError>) {
        let prepared0 = match self.0.prepare(searcher) {
            Ok(prepared) => prepared,
            Err(e) => {
                return Err(e);
            },
        };
        let prepared1 = match self.1.prepare(searcher) {
            Ok(prepared) => prepared,
            Err(e) => {
                return Err(e);
            },
        };
        Ok((prepared0, prepared1))
    }

    fn requires_scoring(&self) -> (scoring: bool) {
        let scoring0 = self.0.requires_scoring();
        let scoring1 = self.1.requires_scoring();
        proof {
            let mut seen = self.0.leaf_scoring();
            lemma_scoring_joins(seen, self.1.leaf_scoring());
            seen = seen + self.1.leaf_scoring();
        }
        scoring0 || scoring1
    }
}

impl<A1: PreparedAgg, A2: PreparedAgg> PreparedAgg for (A1, A2) {
    type Fruit = (A1::Fruit, A2::Fruit);

    type Child = (A1::Child, A2::Child);

    open spec fn inv(&self) -> bool {
        self.0.inv() && self.1.inv()
    }

    open spec fn fruit_ok(&self, fruit: ModelOf<Self::Fruit>) -> bool {
        self.0.fruit_ok(fruit.0) && self.1.fruit_ok(fruit.1)
    }

    open spec fn empty(&self) -> ModelOf<Self::Fruit> {
        (self.0.empty(), self.1.empty())
    }

    open spec fn merged(&self, a: ModelOf<Self::Fruit>, b: ModelOf<Self::Fruit>) -> ModelOf<Self::Fruit>
    {
        (self.0.merged(a.0, b.0), self.1.merged(a.1, b.1))
    }

    open spec fn fits(&self, a: ModelOf<Self::Fruit>, b: ModelOf<Self::Fruit>) -> bool {
        self.0.fits(a.0, b.0) && self.1.fits(a.1, b.1)
    }

    open spec fn spawns(&self, meaning: <Self::Child as SegmentAgg>::Meaning) -> bool {
        self.0.spawns(meaning.0) && self.1.spawns(meaning.1)
    }

    open spec fn runs_on(&self, reader: tantivy::SegmentReader) -> bool {
        self.0.runs_on(reader) && self.1.runs_on(reader)
    }

    open spec fn meaning_on(&self, ctx: AggSegmentContext) -> Result<
        <Self::Child as SegmentAgg>::Meaning,
        AggError,
    > {
        if self.0.meaning_on(ctx) is Err {
            Err(self.0.meaning_on(ctx)->Err_0)
        } else if self.1.meaning_on(ctx) is Err {
            Err(self.1.meaning_on(ctx)->Err_0)
        } else {
            Ok((self.0.meaning_on(ctx)->Ok_0, self.1.meaning_on(ctx)->Ok_0))
        }
    }

    open spec fn steady(&self) -> bool {
        self.0.steady() && self.1.steady()
    }

    fn create_fruit(&self) -> (fruit: Self::Fruit) {
        (self.0.create_fruit(), self.1.create_fruit())
    }

    fn for_segment(&self, ctx: &AggSegmentContext) -> (r: Result<Self::Child, AggError>) {
        let child0 = match self.0.for_segment(ctx) {
            Ok(child) => child,
            Err(e) => {
                return Err(e);
            },
        };
        let child1 = match self.1.for_segment(ctx) {
            Ok(child) => child,
            Err(e) => {
                return Err(e);
            },
        };
        Ok((child0, child1))
    }

    fn merge(&self, acc: &mut Self::Fruit, fruit: Self::Fruit) {
        let (fruit0, fruit1) = fruit;
        self.0.merge(&mut acc.0, fruit0);
        self.1.merge(&mut acc.1, fruit1);
    }

    proof fn law_identity(&self, a: ModelOf<Self::Fruit>) {
        self.0.law_identity(a.0);
        self.1.law_identity(a.1);
    }

    proof fn law_commutative(&self, a: ModelOf<Self::Fruit>, b: ModelOf<Self::Fruit>) {
        self.0.law_commutative(a.0, b.0);
        self.1.law_commutative(a.1, b.1);
    }

    proof fn law_associative(
        &self,
        a: ModelOf<Self::Fruit>,
        b: ModelOf<Self::Fruit>,
        c: ModelOf<Self::Fruit>,
    ) {
        self.0.law_associative(a.0, b.0, c.0);
        self.1.law_associative(a.1, b.1, c.1);
    }

    proof fn law_child(&self, meaning: <Self::Child as SegmentAgg>::Meaning) {
        self.0.law_child(meaning.0);
        self.0.law_identity(self.0.empty());
        self.1.law_child(meaning.1);
        self.1.law_identity(self.1.empty());
        assert forall|a: ModelOf<Self::Fruit>, b: ModelOf<Self::Fruit>| #[trigger]
            Self::Child::merged(meaning, a, b) == self.merged(a, b) by {
            assert(A1::Child::merged(meaning.0, a.0, b.0) == self.0.merged(a.0, b.0));
            assert(A2::Child::merged(meaning.1, a.1, b.1) == self.1.merged(a.1, b.1));
        }
        assert forall|a: ModelOf<Self::Fruit>| #[trigger]
            Self::Child::fruit_ok(meaning, a) == self.fruit_ok(a) by {
            assert(A1::Child::fruit_ok(meaning.0, a.0) == self.0.fruit_ok(a.0));
            assert(A2::Child::fruit_ok(meaning.1, a.1) == self.1.fruit_ok(a.1));
        }
        assert forall|doc: DocId, score: ScoreBits, i: int|
            0 <= i < Self::Child::contributions(meaning, doc, score).len() implies self.fruit_ok(
            #[trigger] Self::Child::contributions(meaning, doc, score)[i],
        ) by {
            let ok = |f: ModelOf<Self::Fruit>| self.fruit_ok(f);
            let part0 = A1::Child::contributions(meaning.0, doc, score).map_values(
                |d: ModelOf<A1::Fruit>| (d, A2::Child::empty(meaning.1)),
            );
            assert forall|j: int| 0 <= j < part0.len() implies ok(#[trigger] part0[j]) by {
                assert(self.0.fruit_ok(A1::Child::contributions(meaning.0, doc, score)[j]));
            }
            let part1 = A2::Child::contributions(meaning.1, doc, score).map_values(
                |d: ModelOf<A2::Fruit>| (A1::Child::empty(meaning.0), d),
            );
            assert forall|j: int| 0 <= j < part1.len() implies ok(#[trigger] part1[j]) by {
                assert(self.1.fruit_ok(A2::Child::contributions(meaning.1, doc, score)[j]));
            }
            lemma_all_joined(ok, part0, part1);
        }
    }
}

impl<A1: SegmentAgg, A2: SegmentAgg> SegmentAgg for (A1, A2) {
    type Fruit = (A1::Fruit, A2::Fruit);

    type Meaning = (A1::Meaning, A2::Meaning);

    open spec fn meaning(&self) -> Self::Meaning {
        (self.0.meaning(), self.1.meaning())
    }

    open spec fn inv(&self) -> bool {
        self.0.inv() && self.1.inv()
    }

    open spec fn frontier(&self) -> nat {
        let front = self.0.frontier();
        let front = highest(front, self.1.frontier());
        front
    }

    open spec fn doc_limit(meaning: Self::Meaning) -> nat {
        let limit = A1::doc_limit(meaning.0);
        let limit = lowest(limit, A2::doc_limit(meaning.1));
        limit
    }

    open spec fn fruit_ok(meaning: Self::Meaning, fruit: ModelOf<Self::Fruit>) -> bool {
        A1::fruit_ok(meaning.0, fruit.0) && A2::fruit_ok(meaning.1, fruit.1)
    }

    open spec fn empty(meaning: Self::Meaning) -> ModelOf<Self::Fruit> {
        (A1::empty(meaning.0), A2::empty(meaning.1))
    }

    open spec fn merged(
        meaning: Self::Meaning,
        a: ModelOf<Self::Fruit>,
        b: ModelOf<Self::Fruit>,
    ) -> ModelOf<Self::Fruit> {
        (A1::merged(meaning.0, a.0, b.0), A2::merged(meaning.1, a.1, b.1))
    }

    open spec fn contributions(meaning: Self::Meaning, doc: DocId, score: ScoreBits) -> Seq<
        ModelOf<Self::Fruit>,
    > {
        A1::contributions(meaning.0, doc, score).map_values(
                |d: ModelOf<A1::Fruit>| (d, A2::empty(meaning.1)),
            )
            + A2::contributions(meaning.1, doc, score).map_values(
                |d: ModelOf<A2::Fruit>| (A1::empty(meaning.0), d),
            )
    }

    fn create_fruit(&self) -> (fruit: Self::Fruit) {
        (self.0.create_fruit(), self.1.create_fruit())
    }

    proof fn law_empty(meaning: Self::Meaning, a: ModelOf<Self::Fruit>) {
        A1::law_empty(meaning.0, a.0);
        A2::law_empty(meaning.1, a.1);
    }

    fn collect(&mut self, doc: DocId, score: ScoreBits, output: &mut Self::Fruit) {
        let ghost meaning = self.meaning();
        let ghost outer = |a: ModelOf<Self::Fruit>, b: ModelOf<Self::Fruit>|
            Self::merged(meaning, a, b);
        let ghost start = output.model();
        let ghost mut done: Seq<ModelOf<Self::Fruit>> = Seq::empty();
        proof {
            lemma_folded_one(outer, start, start);
            assert forall|c: ModelOf<A1::Fruit>| A1::fruit_ok(meaning.0, c) implies #[trigger]
                A1::merged(meaning.0, c, A1::empty(meaning.0)) == c by {
                A1::law_empty(meaning.0, c);
            }
            assert forall|c: ModelOf<A2::Fruit>| A2::fruit_ok(meaning.1, c) implies #[trigger]
                A2::merged(meaning.1, c, A2::empty(meaning.1)) == c by {
                A2::law_empty(meaning.1, c);
            }
        }
        let ghost before = output.model();
        self.0.collect(doc, score, &mut output.0);
        proof {
            let put = |x: ModelOf<A1::Fruit>| (x, before.1);
            let lift = |d: ModelOf<A1::Fruit>| (d, A2::empty(meaning.1));
            let inner = |a: ModelOf<A1::Fruit>, b: ModelOf<A1::Fruit>|
                A1::merged(meaning.0, a, b);
            let part = A1::contributions(meaning.0, doc, score);
            lemma_folded_through(inner, outer, put, lift, before.0, part);
            assert(put(before.0) == before);
            assert(output.model() == put(folded(inner, before.0, part)));
            lemma_folded_parts(outer, start, done, part.map_values(lift));
            done = done + part.map_values(lift);
        }
        let ghost before = output.model();
        self.1.collect(doc, score, &mut output.1);
        proof {
            let put = |x: ModelOf<A2::Fruit>| (before.0, x);
            let lift = |d: ModelOf<A2::Fruit>| (A1::empty(meaning.0), d);
            let inner = |a: ModelOf<A2::Fruit>, b: ModelOf<A2::Fruit>|
                A2::merged(meaning.1, a, b);
            let part = A2::contributions(meaning.1, doc, score);
            lemma_folded_through(inner, outer, put, lift, before.1, part);
            assert(put(before.1) == before);
            assert(output.model() == put(folded(inner, before.1, part)));
            lemma_folded_parts(outer, start, done, part.map_values(lift));
            done = done + part.map_values(lift);
        }
        proof {
            assert(done =~= Self::contributions(meaning, doc, score));
        }
    }
}

impl<A1: FruitModel, A2: FruitModel, A3: FruitModel> FruitModel for (A1, A2, A3) {
    type Model = (A1::Model, A2::Model, A3::Model);

    open spec fn model(&self) -> Self::Model {
        (self.0.model(), self.1.model(), self.2.model())
    }
}

impl<A1: Agg, A2: Agg, A3: Agg> Agg for (A1, A2, A3) {
    type Fruit = (A1::Fruit, A2::Fruit, A3::Fruit);

    type Child = (A1::Child, A2::Child, A3::Child);

    open spec fn leaf_scoring(&self) -> Seq<bool> {
        self.0.leaf_scoring() + self.1.leaf_scoring() + self.2.leaf_scoring()
    }

    open spec fn inv(&self) -> bool {
        self.0.inv() && self.1.inv() && self.2.inv()
    }

    open spec fn steady(&self) -> bool {
        self.0.steady() && self.1.steady() && self.2.steady()
    }

    open spec fn runs_on(&self, searcher: tantivy::Searcher) -> bool {
        self.0.runs_on(searcher) && self.1.runs_on(searcher) && self.2.runs_on(searcher)
    }

    open spec fn prepare_error(&self, searcher: tantivy::Searcher) -> Option<AggError> {
        if self.0.prepare_error(searcher) is Some {
            self.0.prepare_error(searcher)
        } else if self.1.prepare_error(searcher) is Some {
            self.1.prepare_error(searcher)
        } else {
            self.2.prepare_error(searcher)
        }
    }

    open spec fn prepared_by(&self, searcher: tantivy::Searcher, prepared: Self::Child) -> bool {
        self.0.prepared_by(searcher, prepared.0)
            && self.1.prepared_by(searcher, prepared.1)
            && self.2.prepared_by(searcher, prepared.2)
    }

    open spec fn prepares(&self, prepared: Self::Child) -> bool {
        self.0.prepares(prepared.0) && self.1.prepares(prepared.1) && self.2.prepares(prepared.2)
    }

    fn prepare(&self, searcher: &tantivy::Searcher) -> (r: Result<Self::Child, AggError>) {
        let prepared0 = match self.0.prepare(searcher) {
            Ok(prepared) => prepared,
            Err(e) => {
                return Err(e);
            },
        };
        let prepared1 = match self.1.prepare(searcher) {
            Ok(prepared) => prepared,
            Err(e) => {
                return Err(e);
            },
        };
        let prepared2 = match self.2.prepare(searcher) {
            Ok(prepared) => prepared,
            Err(e) => {
                return Err(e);
            },
        };
        Ok((prepared0, prepared1, prepared2))
    }

    fn requires_scoring(&self) -> (scoring: bool) {
        let scoring0 = self.0.requires_scoring();
        let scoring1 = self.1.requires_scoring();
        let scoring2 = self.2.requires_scoring();
        proof {
            let mut seen = self.0.leaf_scoring();
            lemma_scoring_joins(seen, self.1.leaf_scoring());
            seen = seen + self.1.leaf_scoring();
            lemma_scoring_joins(seen, self.2.leaf_scoring());
            seen = seen + self.2.leaf_scoring();
        }
        scoring0 || scoring1 || scoring2
    }
}

impl<A1: PreparedAgg, A2: PreparedAgg, A3: PreparedAgg> PreparedAgg for (A1, A2, A3) {
    type Fruit = (A1::Fruit, A2::Fruit, A3::Fruit);

    type Child = (A1::Child, A2::Child, A3::Child);

    open spec fn inv(&self) -> bool {
        self.0.inv() && self.1.inv() && self.2.inv()
    }

    open spec fn fruit_ok(&self, fruit: ModelOf<Self::Fruit>) -> bool {
        self.0.fruit_ok(fruit.0) && self.1.fruit_ok(fruit.1) && self.2.fruit_ok(fruit.2)
    }

    open spec fn empty(&self) -> ModelOf<Self::Fruit> {
        (self.0.empty(), self.1.empty(), self.2.empty())
    }

    open spec fn merged(&self, a: ModelOf<Self::Fruit>, b: ModelOf<Self::Fruit>) -> ModelOf<Self::Fruit>
    {
        (self.0.merged(a.0, b.0), self.1.merged(a.1, b.1), self.2.merged(a.2, b.2))
    }

    open spec fn fits(&self, a: ModelOf<Self::Fruit>, b: ModelOf<Self::Fruit>) -> bool {
        self.0.fits(a.0, b.0) && self.1.fits(a.1, b.1) && self.2.fits(a.2, b.2)
    }

    open spec fn spawns(&self, meaning: <Self::Child as SegmentAgg>::Meaning) -> bool {
        self.0.spawns(meaning.0) && self.1.spawns(meaning.1) && self.2.spawns(meaning.2)
    }

    open spec fn runs_on(&self, reader: tantivy::SegmentReader) -> bool {
        self.0.runs_on(reader) && self.1.runs_on(reader) && self.2.runs_on(reader)
    }

    open spec fn meaning_on(&self, ctx: AggSegmentContext) -> Result<
        <Self::Child as SegmentAgg>::Meaning,
        AggError,
    > {
        if self.0.meaning_on(ctx) is Err {
            Err(self.0.meaning_on(ctx)->Err_0)
        } else if self.1.meaning_on(ctx) is Err {
            Err(self.1.meaning_on(ctx)->Err_0)
        } else if self.2.meaning_on(ctx) is Err {
            Err(self.2.meaning_on(ctx)->Err_0)
        } else {
            Ok((
                self.0.meaning_on(ctx)->Ok_0,
                self.1.meaning_on(ctx)->Ok_0,
                self.2.meaning_on(ctx)->Ok_0,
            ))
        }
    }

    open spec fn steady(&self) -> bool {
        self.0.steady() && self.1.steady() && self.2.steady()
    }

    fn create_fruit(&self) -> (fruit: Self::Fruit) {
        (self.0.create_fruit(), self.1.create_fruit(), self.2.create_fruit())
    }

    fn for_segment(&self, ctx: &AggSegmentContext) -> (r: Result<Self::Child, AggError>) {
        let child0 = match self.0.for_segment(ctx) {
            Ok(child) => child,
            Err(e) => {
                return Err(e);
            },
        };
        let child1 = match self.1.for_segment(ctx) {
            Ok(child) => child,
            Err(e) => {
                return Err(e);
            },
        };
        let child2 = match self.2.for_segment(ctx) {
            Ok(child) => child,
            Err(e) => {
                return Err(e);
            },
        };
        Ok((child0, child1, child2))
    }

    fn merge(&self, acc: &mut Self::Fruit, fruit: Self::Fruit) {
        let (fruit0, fruit1, fruit2) = fruit;
        self.0.merge(&mut acc.0, fruit0);
        self.1.merge(&mut acc.1, fruit1);
        self.2.merge(&mut acc.2, fruit2);
    }

    proof fn law_identity(&self, a: ModelOf<Self::Fruit>) {
        self.0.law_identity(a.0);
        self.1.law_identity(a.1);
        self.2.law_identity(a.2);
    }

    proof fn law_commutative(&self, a: ModelOf<Self::Fruit>, b: ModelOf<Self::Fruit>) {
        self.0.law_commutative(a.0, b.0);
        self.1.law_commutative(a.1, b.1);
        self.2.law_commutative(a.2, b.2);
    }

    proof fn law_associative(
        &self,
        a: ModelOf<Self::Fruit>,
        b: ModelOf<Self::Fruit>,
        c: ModelOf<Self::Fruit>,
    ) {
        self.0.law_associative(a.0, b.0, c.0);
        self.1.law_associative(a.1, b.1, c.1);
        self.2.law_associative(a.2, b.2, c.2);
    }

    proof fn law_child(&self, meaning: <Self::Child as SegmentAgg>::Meaning) {
        self.0.law_child(meaning.0);
        self.0.law_identity(self.0.empty());
        self.1.law_child(meaning.1);
        self.1.law_identity(self.1.empty());
        self.2.law_child(meaning.2);
        self.2.law_identity(self.2.empty());
        assert forall|a: ModelOf<Self::Fruit>, b: ModelOf<Self::Fruit>| #[trigger]
            Self::Child::merged(meaning, a, b) == self.merged(a, b) by {
            assert(A1::Child::merged(meaning.0, a.0, b.0) == self.0.merged(a.0, b.0));
            assert(A2::Child::merged(meaning.1, a.1, b.1) == self.1.merged(a.1, b.1));
            assert(A3::Child::merged(meaning.2, a.2, b.2) == self.2.merged(a.2, b.2));
        }
        assert forall|a: ModelOf<Self::Fruit>| #[trigger]
            Self::Child::fruit_ok(meaning, a) == self.fruit_ok(a) by {
            assert(A1::Child::fruit_ok(meaning.0, a.0) == self.0.fruit_ok(a.0));
            assert(A2::Child::fruit_ok(meaning.1, a.1) == self.1.fruit_ok(a.1));
            assert(A3::Child::fruit_ok(meaning.2, a.2) == self.2.fruit_ok(a.2));
        }
        assert forall|doc: DocId, score: ScoreBits, i: int|
            0 <= i < Self::Child::contributions(meaning, doc, score).len() implies self.fruit_ok(
            #[trigger] Self::Child::contributions(meaning, doc, score)[i],
        ) by {
            let ok = |f: ModelOf<Self::Fruit>| self.fruit_ok(f);
            let part0 = A1::Child::contributions(meaning.0, doc, score).map_values(
                |d: ModelOf<A1::Fruit>| (
                    d,
                    A2::Child::empty(meaning.1),
                    A3::Child::empty(meaning.2),
                ),
            );
            assert forall|j: int| 0 <= j < part0.len() implies ok(#[trigger] part0[j]) by {
                assert(self.0.fruit_ok(A1::Child::contributions(meaning.0, doc, score)[j]));
            }
            let part1 = A2::Child::contributions(meaning.1, doc, score).map_values(
                |d: ModelOf<A2::Fruit>| (
                    A1::Child::empty(meaning.0),
                    d,
                    A3::Child::empty(meaning.2),
                ),
            );
            assert forall|j: int| 0 <= j < part1.len() implies ok(#[trigger] part1[j]) by {
                assert(self.1.fruit_ok(A2::Child::contributions(meaning.1, doc, score)[j]));
            }
            let part2 = A3::Child::contributions(meaning.2, doc, score).map_values(
                |d: ModelOf<A3::Fruit>| (
                    A1::Child::empty(meaning.0),
                    A2::Child::empty(meaning.1),
                    d,
                ),
            );
            assert forall|j: int| 0 <= j < part2.len() implies ok(#[trigger] part2[j]) by {
                assert(self.2.fruit_ok(A3::Child::contributions(meaning.2, doc, score)[j]));
            }
            lemma_all_joined(ok, part0, part1);
            lemma_all_joined(ok, part0 + part1, part2);
        }
    }
}

impl<A1: SegmentAgg, A2: SegmentAgg, A3: SegmentAgg> SegmentAgg for (A1, A2, A3) {
    type Fruit = (A1::Fruit, A2::Fruit, A3::Fruit);

    type Meaning = (A1::Meaning, A2::Meaning, A3::Meaning);

    open spec fn meaning(&self) -> Self::Meaning {
        (self.0.meaning(), self.1.meaning(), self.2.meaning())
    }

    open spec fn inv(&self) -> bool {
        self.0.inv() && self.1.inv() && self.2.inv()
    }

    open spec fn frontier(&self) -> nat {
        let front = self.0.frontier();
        let front = highest(front, self.1.frontier());
        let front = highest(front, self.2.frontier());
        front
    }

    open spec fn doc_limit(meaning: Self::Meaning) -> nat {
        let limit = A1::doc_limit(meaning.0);
        let limit = lowest(limit, A2::doc_limit(meaning.1));
        let limit = lowest(limit, A3::doc_limit(meaning.2));
        limit
    }

    open spec fn fruit_ok(meaning: Self::Meaning, fruit: ModelOf<Self::Fruit>) -> bool {
        A1::fruit_ok(meaning.0, fruit.0)
            && A2::fruit_ok(meaning.1, fruit.1)
            && A3::fruit_ok(meaning.2, fruit.2)
    }

    open spec fn empty(meaning: Self::Meaning) -> ModelOf<Self::Fruit> {
        (A1::empty(meaning.0), A2::empty(meaning.1), A3::empty(meaning.2))
    }

    open spec fn merged(
        meaning: Self::Meaning,
        a: ModelOf<Self::Fruit>,
        b: ModelOf<Self::Fruit>,
    ) -> ModelOf<Self::Fruit> {
        (
            A1::merged(meaning.0, a.0, b.0),
            A2::merged(meaning.1, a.1, b.1),
            A3::merged(meaning.2, a.2, b.2),
        )
    }

    open spec fn contributions(meaning: Self::Meaning, doc: DocId, score: ScoreBits) -> Seq<
        ModelOf<Self::Fruit>,
    > {
        A1::contributions(meaning.0, doc, score).map_values(
                |d: ModelOf<A1::Fruit>| (d, A2::empty(meaning.1), A3::empty(meaning.2)),
            )
            + A2::contributions(meaning.1, doc, score).map_values(
                |d: ModelOf<A2::Fruit>| (A1::empty(meaning.0), d, A3::empty(meaning.2)),
            )
            + A3::contributions(meaning.2, doc, score).map_values(
                |d: ModelOf<A3::Fruit>| (A1::empty(meaning.0), A2::empty(meaning.1), d),
            )
    }

    fn create_fruit(&self) -> (fruit: Self::Fruit) {
        (self.0.create_fruit(), self.1.create_fruit(), self.2.create_fruit())
    }

    proof fn law_empty(meaning: Self::Meaning, a: ModelOf<Self::Fruit>) {
        A1::law_empty(meaning.0, a.0);
        A2::law_empty(meaning.1, a.1);
        A3::law_empty(meaning.2, a.2);
    }

    fn collect(&mut self, doc: DocId, score: ScoreBits, output: &mut Self::Fruit) {
        let ghost meaning = self.meaning();
        let ghost outer = |a: ModelOf<Self::Fruit>, b: ModelOf<Self::Fruit>|
            Self::merged(meaning, a, b);
        let ghost start = output.model();
        let ghost mut done: Seq<ModelOf<Self::Fruit>> = Seq::empty();
        proof {
            lemma_folded_one(outer, start, start);
            assert forall|c: ModelOf<A1::Fruit>| A1::fruit_ok(meaning.0, c) implies #[trigger]
                A1::merged(meaning.0, c, A1::empty(meaning.0)) == c by {
                A1::law_empty(meaning.0, c);
            }
            assert forall|c: ModelOf<A2::Fruit>| A2::fruit_ok(meaning.1, c) implies #[trigger]
                A2::merged(meaning.1, c, A2::empty(meaning.1)) == c by {
                A2::law_empty(meaning.1, c);
            }
            assert forall|c: ModelOf<A3::Fruit>| A3::fruit_ok(meaning.2, c) implies #[trigger]
                A3::merged(meaning.2, c, A3::empty(meaning.2)) == c by {
                A3::law_empty(meaning.2, c);
            }
        }
        let ghost before = output.model();
        self.0.collect(doc, score, &mut output.0);
        proof {
            let put = |x: ModelOf<A1::Fruit>| (x, before.1, before.2);
            let lift = |d: ModelOf<A1::Fruit>| (d, A2::empty(meaning.1), A3::empty(meaning.2));
            let inner = |a: ModelOf<A1::Fruit>, b: ModelOf<A1::Fruit>|
                A1::merged(meaning.0, a, b);
            let part = A1::contributions(meaning.0, doc, score);
            lemma_folded_through(inner, outer, put, lift, before.0, part);
            assert(put(before.0) == before);
            assert(output.model() == put(folded(inner, before.0, part)));
            lemma_folded_parts(outer, start, done, part.map_values(lift));
            done = done + part.map_values(lift);
        }
        let ghost before = output.model();
        self.1.collect(doc, score, &mut output.1);
        proof {
            let put = |x: ModelOf<A2::Fruit>| (before.0, x, before.2);
            let lift = |d: ModelOf<A2::Fruit>| (A1::empty(meaning.0), d, A3::empty(meaning.2));
            let inner = |a: ModelOf<A2::Fruit>, b: ModelOf<A2::Fruit>|
                A2::merged(meaning.1, a, b);
            let part = A2::contributions(meaning.1, doc, score);
            lemma_folded_through(inner, outer, put, lift, before.1, part);
            assert(put(before.1) == before);
            assert(output.model() == put(folded(inner, before.1, part)));
            lemma_folded_parts(outer, start, done, part.map_values(lift));
            done = done + part.map_values(lift);
        }
        let ghost before = output.model();
        self.2.collect(doc, score, &mut output.2);
        proof {
            let put = |x: ModelOf<A3::Fruit>| (before.0, before.1, x);
            let lift = |d: ModelOf<A3::Fruit>| (A1::empty(meaning.0), A2::empty(meaning.1), d);
            let inner = |a: ModelOf<A3::Fruit>, b: ModelOf<A3::Fruit>|
                A3::merged(meaning.2, a, b);
            let part = A3::contributions(meaning.2, doc, score);
            lemma_folded_through(inner, outer, put, lift, before.2, part);
            assert(put(before.2) == before);
            assert(output.model() == put(folded(inner, before.2, part)));
            lemma_folded_parts(outer, start, done, part.map_values(lift));
            done = done + part.map_values(lift);
        }
        proof {
            assert(done =~= Self::contributions(meaning, doc, score));
        }
    }
}

impl<
    A1: FruitModel,
    A2: FruitModel,
    A3: FruitModel,
    A4: FruitModel,
> FruitModel for (A1, A2, A3, A4) {
    type Model = (A1::Model, A2::Model, A3::Model, A4::Model);

    open spec fn model(&self) -> Self::Model {
        (self.0.model(), self.1.model(), self.2.model(), self.3.model())
    }
}

impl<A1: Agg, A2: Agg, A3: Agg, A4: Agg> Agg for (A1, A2, A3, A4) {
    type Fruit = (A1::Fruit, A2::Fruit, A3::Fruit, A4::Fruit);

    type Child = (A1::Child, A2::Child, A3::Child, A4::Child);

    open spec fn leaf_scoring(&self) -> Seq<bool> {
        self.0.leaf_scoring()
            + self.1.leaf_scoring()
            + self.2.leaf_scoring()
            + self.3.leaf_scoring()
    }

    open spec fn inv(&self) -> bool {
        self.0.inv() && self.1.inv() && self.2.inv() && self.3.inv()
    }

    open spec fn steady(&self) -> bool {
        self.0.steady() && self.1.steady() && self.2.steady() && self.3.steady()
    }

    open spec fn runs_on(&self, searcher: tantivy::Searcher) -> bool {
        self.0.runs_on(searcher)
            && self.1.runs_on(searcher)
            && self.2.runs_on(searcher)
            && self.3.runs_on(searcher)
    }

    open spec fn prepare_error(&self, searcher: tantivy::Searcher) -> Option<AggError> {
        if self.0.prepare_error(searcher) is Some {
            self.0.prepare_error(searcher)
        } else if self.1.prepare_error(searcher) is Some {
            self.1.prepare_error(searcher)
        } else if self.2.prepare_error(searcher) is Some {
            self.2.prepare_error(searcher)
        } else {
            self.3.prepare_error(searcher)
        }
    }

    open spec fn prepared_by(&self, searcher: tantivy::Searcher, prepared: Self::Child) -> bool {
        self.0.prepared_by(searcher, prepared.0)
            && self.1.prepared_by(searcher, prepared.1)
            && self.2.prepared_by(searcher, prepared.2)
            && self.3.prepared_by(searcher, prepared.3)
    }

    open spec fn prepares(&self, prepared: Self::Child) -> bool {
        self.0.prepares(prepared.0)
            && self.1.prepares(prepared.1)
            && self.2.prepares(prepared.2)
            && self.3.prepares(prepared.3)
    }

    fn prepare(&self, searcher: &tantivy::Searcher) -> (r: Result<Self::Child, AggError>) {
        let prepared0 = match self.0.prepare(searcher) {
            Ok(prepared) => prepared,
            Err(e) => {
                return Err(e);
            },
        };
        let prepared1 = match self.1.prepare(searcher) {
            Ok(prepared) => prepared,
            Err(e) => {
                return Err(e);
            },
        };
        let prepared2 = match self.2.prepare(searcher) {
            Ok(prepared) => prepared,
            Err(e) => {
                return Err(e);
            },
        };
        let prepared3 = match self.3.prepare(searcher) {
            Ok(prepared) => prepared,
            Err(e) => {
                return Err(e);
            },
        };
        Ok((prepared0, prepared1, prepared2, prepared3))
    }

    fn requires_scoring(&self) -> (scoring: bool) {
        let scoring0 = self.0.requires_scoring();
        let scoring1 = self.1.requires_scoring();
        let scoring2 = self.2.requires_scoring();
        let scoring3 = self.3.requires_scoring();
        proof {
            let mut seen = self.0.leaf_scoring();
            lemma_scoring_joins(seen, self.1.leaf_scoring());
            seen = seen + self.1.leaf_scoring();
            lemma_scoring_joins(seen, self.2.leaf_scoring());
            seen = seen + self.2.leaf_scoring();
            lemma_scoring_joins(seen, self.3.leaf_scoring());
            seen = seen + self.3.leaf_scoring();
        }
        scoring0 || scoring1 || scoring2 || scoring3
    }
}

impl<
    A1: PreparedAgg,
    A2: PreparedAgg,
    A3: PreparedAgg,
    A4: PreparedAgg,
> PreparedAgg for (A1, A2, A3, A4) {
    type Fruit = (A1::Fruit, A2::Fruit, A3::Fruit, A4::Fruit);

    type Child = (A1::Child, A2::Child, A3::Child, A4::Child);

    open spec fn inv(&self) -> bool {
        self.0.inv() && self.1.inv() && self.2.inv() && self.3.inv()
    }

    open spec fn fruit_ok(&self, fruit: ModelOf<Self::Fruit>) -> bool {
        self.0.fruit_ok(fruit.0)
            && self.1.fruit_ok(fruit.1)
            && self.2.fruit_ok(fruit.2)
            && self.3.fruit_ok(fruit.3)
    }

    open spec fn empty(&self) -> ModelOf<Self::Fruit> {
        (self.0.empty(), self.1.empty(), self.2.empty(), self.3.empty())
    }

    open spec fn merged(&self, a: ModelOf<Self::Fruit>, b: ModelOf<Self::Fruit>) -> ModelOf<Self::Fruit>
    {
        (
            self.0.merged(a.0, b.0),
            self.1.merged(a.1, b.1),
            self.2.merged(a.2, b.2),
            self.3.merged(a.3, b.3),
        )
    }

    open spec fn fits(&self, a: ModelOf<Self::Fruit>, b: ModelOf<Self::Fruit>) -> bool {
        self.0.fits(a.0, b.0)
            && self.1.fits(a.1, b.1)
            && self.2.fits(a.2, b.2)
            && self.3.fits(a.3, b.3)
    }

    open spec fn spawns(&self, meaning: <Self::Child as SegmentAgg>::Meaning) -> bool {
        self.0.spawns(meaning.0)
            && self.1.spawns(meaning.1)
            && self.2.spawns(meaning.2)
            && self.3.spawns(meaning.3)
    }

    open spec fn runs_on(&self, reader: tantivy::SegmentReader) -> bool {
        self.0.runs_on(reader)
            && self.1.runs_on(reader)
            && self.2.runs_on(reader)
            && self.3.runs_on(reader)
    }

    open spec fn meaning_on(&self, ctx: AggSegmentContext) -> Result<
        <Self::Child as SegmentAgg>::Meaning,
        AggError,
    > {
        if self.0.meaning_on(ctx) is Err {
            Err(self.0.meaning_on(ctx)->Err_0)
        } else if self.1.meaning_on(ctx) is Err {
            Err(self.1.meaning_on(ctx)->Err_0)
        } else if self.2.meaning_on(ctx) is Err {
            Err(self.2.meaning_on(ctx)->Err_0)
        } else if self.3.meaning_on(ctx) is Err {
            Err(self.3.meaning_on(ctx)->Err_0)
        } else {
            Ok((
                self.0.meaning_on(ctx)->Ok_0,
                self.1.meaning_on(ctx)->Ok_0,
                self.2.meaning_on(ctx)->Ok_0,
                self.3.meaning_on(ctx)->Ok_0,
            ))
        }
    }

    open spec fn steady(&self) -> bool {
        self.0.steady() && self.1.steady() && self.2.steady() && self.3.steady()
    }

    fn create_fruit(&self) -> (fruit: Self::Fruit) {
        (self.0.create_fruit(), self.1.create_fruit(), self.2.create_fruit(), self.3.create_fruit())
    }

    fn for_segment(&self, ctx: &AggSegmentContext) -> (r: Result<Self::Child, AggError>) {
        let child0 = match self.0.for_segment(ctx) {
            Ok(child) => child,
            Err(e) => {
                return Err(e);
            },
        };
        let child1 = match self.1.for_segment(ctx) {
            Ok(child) => child,
            Err(e) => {
                return Err(e);
            },
        };
        let child2 = match self.2.for_segment(ctx) {
            Ok(child) => child,
            Err(e) => {
                return Err(e);
            },
        };
        let child3 = match self.3.for_segment(ctx) {
            Ok(child) => child,
            Err(e) => {
                return Err(e);
            },
        };
        Ok((child0, child1, child2, child3))
    }

    fn merge(&self, acc: &mut Self::Fruit, fruit: Self::Fruit) {
        let (fruit0, fruit1, fruit2, fruit3) = fruit;
        self.0.merge(&mut acc.0, fruit0);
        self.1.merge(&mut acc.1, fruit1);
        self.2.merge(&mut acc.2, fruit2);
        self.3.merge(&mut acc.3, fruit3);
    }

    proof fn law_identity(&self, a: ModelOf<Self::Fruit>) {
        self.0.law_identity(a.0);
        self.1.law_identity(a.1);
        self.2.law_identity(a.2);
        self.3.law_identity(a.3);
    }

    proof fn law_commutative(&self, a: ModelOf<Self::Fruit>, b: ModelOf<Self::Fruit>) {
        self.0.law_commutative(a.0, b.0);
        self.1.law_commutative(a.1, b.1);
        self.2.law_commutative(a.2, b.2);
        self.3.law_commutative(a.3, b.3);
    }

    proof fn law_associative(
        &self,
        a: ModelOf<Self::Fruit>,
        b: ModelOf<Self::Fruit>,
        c: ModelOf<Self::Fruit>,
    ) {
        self.0.law_associative(a.0, b.0, c.0);
        self.1.law_associative(a.1, b.1, c.1);
        self.2.law_associative(a.2, b.2, c.2);
        self.3.law_associative(a.3, b.3, c.3);
    }

    proof fn law_child(&self, meaning: <Self::Child as SegmentAgg>::Meaning) {
        self.0.law_child(meaning.0);
        self.0.law_identity(self.0.empty());
        self.1.law_child(meaning.1);
        self.1.law_identity(self.1.empty());
        self.2.law_child(meaning.2);
        self.2.law_identity(self.2.empty());
        self.3.law_child(meaning.3);
        self.3.law_identity(self.3.empty());
        assert forall|a: ModelOf<Self::Fruit>, b: ModelOf<Self::Fruit>| #[trigger]
            Self::Child::merged(meaning, a, b) == self.merged(a, b) by {
            assert(A1::Child::merged(meaning.0, a.0, b.0) == self.0.merged(a.0, b.0));
            assert(A2::Child::merged(meaning.1, a.1, b.1) == self.1.merged(a.1, b.1));
            assert(A3::Child::merged(meaning.2, a.2, b.2) == self.2.merged(a.2, b.2));
            assert(A4::Child::merged(meaning.3, a.3, b.3) == self.3.merged(a.3, b.3));
        }
        assert forall|a: ModelOf<Self::Fruit>| #[trigger]
            Self::Child::fruit_ok(meaning, a) == self.fruit_ok(a) by {
            assert(A1::Child::fruit_ok(meaning.0, a.0) == self.0.fruit_ok(a.0));
            assert(A2::Child::fruit_ok(meaning.1, a.1) == self.1.fruit_ok(a.1));
            assert(A3::Child::fruit_ok(meaning.2, a.2) == self.2.fruit_ok(a.2));
            assert(A4::Child::fruit_ok(meaning.3, a.3) == self.3.fruit_ok(a.3));
        }
        assert forall|doc: DocId, score: ScoreBits, i: int|
            0 <= i < Self::Child::contributions(meaning, doc, score).len() implies self.fruit_ok(
            #[trigger] Self::Child::contributions(meaning, doc, score)[i],
        ) by {
            let ok = |f: ModelOf<Self::Fruit>| self.fruit_ok(f);
            let part0 = A1::Child::contributions(meaning.0, doc, score).map_values(
                |d: ModelOf<A1::Fruit>| (
                    d,
                    A2::Child::empty(meaning.1),
                    A3::Child::empty(meaning.2),
                    A4::Child::empty(meaning.3),
                ),
            );
            assert forall|j: int| 0 <= j < part0.len() implies ok(#[trigger] part0[j]) by {
                assert(self.0.fruit_ok(A1::Child::contributions(meaning.0, doc, score)[j]));
            }
            let part1 = A2::Child::contributions(meaning.1, doc, score).map_values(
                |d: ModelOf<A2::Fruit>| (
                    A1::Child::empty(meaning.0),
                    d,
                    A3::Child::empty(meaning.2),
                    A4::Child::empty(meaning.3),
                ),
            );
            assert forall|j: int| 0 <= j < part1.len() implies ok(#[trigger] part1[j]) by {
                assert(self.1.fruit_ok(A2::Child::contributions(meaning.1, doc, score)[j]));
            }
            let part2 = A3::Child::contributions(meaning.2, doc, score).map_values(
                |d: ModelOf<A3::Fruit>| (
                    A1::Child::empty(meaning.0),
                    A2::Child::empty(meaning.1),
                    d,
                    A4::Child::empty(meaning.3),
                ),
            );
            assert forall|j: int| 0 <= j < part2.len() implies ok(#[trigger] part2[j]) by {
                assert(self.2.fruit_ok(A3::Child::contributions(meaning.2, doc, score)[j]));
            }
            let part3 = A4::Child::contributions(meaning.3, doc, score).map_values(
                |d: ModelOf<A4::Fruit>| (
                    A1::Child::empty(meaning.0),
                    A2::Child::empty(meaning.1),
                    A3::Child::empty(meaning.2),
                    d,
                ),
            );
            assert forall|j: int| 0 <= j < part3.len() implies ok(#[trigger] part3[j]) by {
                assert(self.3.fruit_ok(A4::Child::contributions(meaning.3, doc, score)[j]));
            }
            lemma_all_joined(ok, part0, part1);
            lemma_all_joined(ok, part0 + part1, part2);
            lemma_all_joined(ok, part0 + part1 + part2, part3);
        }
    }
}

impl<
    A1: SegmentAgg,
    A2: SegmentAgg,
    A3: SegmentAgg,
    A4: SegmentAgg,
> SegmentAgg for (A1, A2, A3, A4) {
    type Fruit = (A1::Fruit, A2::Fruit, A3::Fruit, A4::Fruit);

    type Meaning = (A1::Meaning, A2::Meaning, A3::Meaning, A4::Meaning);

    open spec fn meaning(&self) -> Self::Meaning {
        (self.0.meaning(), self.1.meaning(), self.2.meaning(), self.3.meaning())
    }

    open spec fn inv(&self) -> bool {
        self.0.inv() && self.1.inv() && self.2.inv() && self.3.inv()
    }

    open spec fn frontier(&self) -> nat {
        let front = self.0.frontier();
        let front = highest(front, self.1.frontier());
        let front = highest(front, self.2.frontier());
        let front = highest(front, self.3.frontier());
        front
    }

    open spec fn doc_limit(meaning: Self::Meaning) -> nat {
        let limit = A1::doc_limit(meaning.0);
        let limit = lowest(limit, A2::doc_limit(meaning.1));
        let limit = lowest(limit, A3::doc_limit(meaning.2));
        let limit = lowest(limit, A4::doc_limit(meaning.3));
        limit
    }

    open spec fn fruit_ok(meaning: Self::Meaning, fruit: ModelOf<Self::Fruit>) -> bool {
        A1::fruit_ok(meaning.0, fruit.0)
            && A2::fruit_ok(meaning.1, fruit.1)
            && A3::fruit_ok(meaning.2, fruit.2)
            && A4::fruit_ok(meaning.3, fruit.3)
    }

    open spec fn empty(meaning: Self::Meaning) -> ModelOf<Self::Fruit> {
        (A1::empty(meaning.0), A2::empty(meaning.1), A3::empty(meaning.2), A4::empty(meaning.3))
    }

    open spec fn merged(
        meaning: Self::Meaning,
        a: ModelOf<Self::Fruit>,
        b: ModelOf<Self::Fruit>,
    ) -> ModelOf<Self::Fruit> {
        (
            A1::merged(meaning.0, a.0, b.0),
            A2::merged(meaning.1, a.1, b.1),
            A3::merged(meaning.2, a.2, b.2),
            A4::merged(meaning.3, a.3, b.3),
        )
    }

    open spec fn contributions(meaning: Self::Meaning, doc: DocId, score: ScoreBits) -> Seq<
        ModelOf<Self::Fruit>,
    > {
        A1::contributions(meaning.0, doc, score).map_values(
                |d: ModelOf<A1::Fruit>| (
                    d,
                    A2::empty(meaning.1),
                    A3::empty(meaning.2),
                    A4::empty(meaning.3),
                ),
            )
            + A2::contributions(meaning.1, doc, score).map_values(
                |d: ModelOf<A2::Fruit>| (
                    A1::empty(meaning.0),
                    d,
                    A3::empty(meaning.2),
                    A4::empty(meaning.3),
                ),
            )
            + A3::contributions(meaning.2, doc, score).map_values(
                |d: ModelOf<A3::Fruit>| (
                    A1::empty(meaning.0),
                    A2::empty(meaning.1),
                    d,
                    A4::empty(meaning.3),
                ),
            )
            + A4::contributions(meaning.3, doc, score).map_values(
                |d: ModelOf<A4::Fruit>| (
                    A1::empty(meaning.0),
                    A2::empty(meaning.1),
                    A3::empty(meaning.2),
                    d,
                ),
            )
    }

    fn create_fruit(&self) -> (fruit: Self::Fruit) {
        (self.0.create_fruit(), self.1.create_fruit(), self.2.create_fruit(), self.3.create_fruit())
    }

    proof fn law_empty(meaning: Self::Meaning, a: ModelOf<Self::Fruit>) {
        A1::law_empty(meaning.0, a.0);
        A2::law_empty(meaning.1, a.1);
        A3::law_empty(meaning.2, a.2);
        A4::law_empty(meaning.3, a.3);
    }

    fn collect(&mut self, doc: DocId, score: ScoreBits, output: &mut Self::Fruit) {
        let ghost meaning = self.meaning();
        let ghost outer = |a: ModelOf<Self::Fruit>, b: ModelOf<Self::Fruit>|
            Self::merged(meaning, a, b);
        let ghost start = output.model();
        let ghost mut done: Seq<ModelOf<Self::Fruit>> = Seq::empty();
        proof {
            lemma_folded_one(outer, start, start);
            assert forall|c: ModelOf<A1::Fruit>| A1::fruit_ok(meaning.0, c) implies #[trigger]
                A1::merged(meaning.0, c, A1::empty(meaning.0)) == c by {
                A1::law_empty(meaning.0, c);
            }
            assert forall|c: ModelOf<A2::Fruit>| A2::fruit_ok(meaning.1, c) implies #[trigger]
                A2::merged(meaning.1, c, A2::empty(meaning.1)) == c by {
                A2::law_empty(meaning.1, c);
            }
            assert forall|c: ModelOf<A3::Fruit>| A3::fruit_ok(meaning.2, c) implies #[trigger]
                A3::merged(meaning.2, c, A3::empty(meaning.2)) == c by {
                A3::law_empty(meaning.2, c);
            }
            assert forall|c: ModelOf<A4::Fruit>| A4::fruit_ok(meaning.3, c) implies #[trigger]
                A4::merged(meaning.3, c, A4::empty(meaning.3)) == c by {
                A4::law_empty(meaning.3, c);
            }
        }
        let ghost before = output.model();
        self.0.collect(doc, score, &mut output.0);
        proof {
            let put = |x: ModelOf<A1::Fruit>| (x, before.1, before.2, before.3);
            let lift = |d: ModelOf<A1::Fruit>| (
                d,
                A2::empty(meaning.1),
                A3::empty(meaning.2),
                A4::empty(meaning.3),
            );
            let inner = |a: ModelOf<A1::Fruit>, b: ModelOf<A1::Fruit>|
                A1::merged(meaning.0, a, b);
            let part = A1::contributions(meaning.0, doc, score);
            lemma_folded_through(inner, outer, put, lift, before.0, part);
            assert(put(before.0) == before);
            assert(output.model() == put(folded(inner, before.0, part)));
            lemma_folded_parts(outer, start, done, part.map_values(lift));
            done = done + part.map_values(lift);
        }
        let ghost before = output.model();
        self.1.collect(doc, score, &mut output.1);
        proof {
            let put = |x: ModelOf<A2::Fruit>| (before.0, x, before.2, before.3);
            let lift = |d: ModelOf<A2::Fruit>| (
                A1::empty(meaning.0),
                d,
                A3::empty(meaning.2),
                A4::empty(meaning.3),
            );
            let inner = |a: ModelOf<A2::Fruit>, b: ModelOf<A2::Fruit>|
                A2::merged(meaning.1, a, b);
            let part = A2::contributions(meaning.1, doc, score);
            lemma_folded_through(inner, outer, put, lift, before.1, part);
            assert(put(before.1) == before);
            assert(output.model() == put(folded(inner, before.1, part)));
            lemma_folded_parts(outer, start, done, part.map_values(lift));
            done = done + part.map_values(lift);
        }
        let ghost before = output.model();
        self.2.collect(doc, score, &mut output.2);
        proof {
            let put = |x: ModelOf<A3::Fruit>| (before.0, before.1, x, before.3);
            let lift = |d: ModelOf<A3::Fruit>| (
                A1::empty(meaning.0),
                A2::empty(meaning.1),
                d,
                A4::empty(meaning.3),
            );
            let inner = |a: ModelOf<A3::Fruit>, b: ModelOf<A3::Fruit>|
                A3::merged(meaning.2, a, b);
            let part = A3::contributions(meaning.2, doc, score);
            lemma_folded_through(inner, outer, put, lift, before.2, part);
            assert(put(before.2) == before);
            assert(output.model() == put(folded(inner, before.2, part)));
            lemma_folded_parts(outer, start, done, part.map_values(lift));
            done = done + part.map_values(lift);
        }
        let ghost before = output.model();
        self.3.collect(doc, score, &mut output.3);
        proof {
            let put = |x: ModelOf<A4::Fruit>| (before.0, before.1, before.2, x);
            let lift = |d: ModelOf<A4::Fruit>| (
                A1::empty(meaning.0),
                A2::empty(meaning.1),
                A3::empty(meaning.2),
                d,
            );
            let inner = |a: ModelOf<A4::Fruit>, b: ModelOf<A4::Fruit>|
                A4::merged(meaning.3, a, b);
            let part = A4::contributions(meaning.3, doc, score);
            lemma_folded_through(inner, outer, put, lift, before.3, part);
            assert(put(before.3) == before);
            assert(output.model() == put(folded(inner, before.3, part)));
            lemma_folded_parts(outer, start, done, part.map_values(lift));
            done = done + part.map_values(lift);
        }
        proof {
            assert(done =~= Self::contributions(meaning, doc, score));
        }
    }
}

impl<
    A1: FruitModel,
    A2: FruitModel,
    A3: FruitModel,
    A4: FruitModel,
    A5: FruitModel,
> FruitModel for (A1, A2, A3, A4, A5) {
    type Model = (A1::Model, A2::Model, A3::Model, A4::Model, A5::Model);

    open spec fn model(&self) -> Self::Model {
        (self.0.model(), self.1.model(), self.2.model(), self.3.model(), self.4.model())
    }
}

impl<A1: Agg, A2: Agg, A3: Agg, A4: Agg, A5: Agg> Agg for (A1, A2, A3, A4, A5) {
    type Fruit = (A1::Fruit, A2::Fruit, A3::Fruit, A4::Fruit, A5::Fruit);

    type Child = (A1::Child, A2::Child, A3::Child, A4::Child, A5::Child);

    open spec fn leaf_scoring(&self) -> Seq<bool> {
        self.0.leaf_scoring()
            + self.1.leaf_scoring()
            + self.2.leaf_scoring()
            + self.3.leaf_scoring()
            + self.4.leaf_scoring()
    }

    open spec fn inv(&self) -> bool {
        self.0.inv() && self.1.inv() && self.2.inv() && self.3.inv() && self.4.inv()
    }

    open spec fn steady(&self) -> bool {
        self.0.steady() && self.1.steady() && self.2.steady() && self.3.steady() && self.4.steady()
    }

    open spec fn runs_on(&self, searcher: tantivy::Searcher) -> bool {
        self.0.runs_on(searcher)
            && self.1.runs_on(searcher)
            && self.2.runs_on(searcher)
            && self.3.runs_on(searcher)
            && self.4.runs_on(searcher)
    }

    open spec fn prepare_error(&self, searcher: tantivy::Searcher) -> Option<AggError> {
        if self.0.prepare_error(searcher) is Some {
            self.0.prepare_error(searcher)
        } else if self.1.prepare_error(searcher) is Some {
            self.1.prepare_error(searcher)
        } else if self.2.prepare_error(searcher) is Some {
            self.2.prepare_error(searcher)
        } else if self.3.prepare_error(searcher) is Some {
            self.3.prepare_error(searcher)
        } else {
            self.4.prepare_error(searcher)
        }
    }

    open spec fn prepared_by(&self, searcher: tantivy::Searcher, prepared: Self::Child) -> bool {
        self.0.prepared_by(searcher, prepared.0)
            && self.1.prepared_by(searcher, prepared.1)
            && self.2.prepared_by(searcher, prepared.2)
            && self.3.prepared_by(searcher, prepared.3)
            && self.4.prepared_by(searcher, prepared.4)
    }

    open spec fn prepares(&self, prepared: Self::Child) -> bool {
        self.0.prepares(prepared.0)
            && self.1.prepares(prepared.1)
            && self.2.prepares(prepared.2)
            && self.3.prepares(prepared.3)
            && self.4.prepares(prepared.4)
    }

    fn prepare(&self, searcher: &tantivy::Searcher) -> (r: Result<Self::Child, AggError>) {
        let prepared0 = match self.0.prepare(searcher) {
            Ok(prepared) => prepared,
            Err(e) => {
                return Err(e);
            },
        };
        let prepared1 = match self.1.prepare(searcher) {
            Ok(prepared) => prepared,
            Err(e) => {
                return Err(e);
            },
        };
        let prepared2 = match self.2.prepare(searcher) {
            Ok(prepared) => prepared,
            Err(e) => {
                return Err(e);
            },
        };
        let prepared3 = match self.3.prepare(searcher) {
            Ok(prepared) => prepared,
            Err(e) => {
                return Err(e);
            },
        };
        let prepared4 = match self.4.prepare(searcher) {
            Ok(prepared) => prepared,
            Err(e) => {
                return Err(e);
            },
        };
        Ok((prepared0, prepared1, prepared2, prepared3, prepared4))
    }

    fn requires_scoring(&self) -> (scoring: bool) {
        let scoring0 = self.0.requires_scoring();
        let scoring1 = self.1.requires_scoring();
        let scoring2 = self.2.requires_scoring();
        let scoring3 = self.3.requires_scoring();
        let scoring4 = self.4.requires_scoring();
        proof {
            let mut seen = self.0.leaf_scoring();
            lemma_scoring_joins(seen, self.1.leaf_scoring());
            seen = seen + self.1.leaf_scoring();
            lemma_scoring_joins(seen, self.2.leaf_scoring());
            seen = seen + self.2.leaf_scoring();
            lemma_scoring_joins(seen, self.3.leaf_scoring());
            seen = seen + self.3.leaf_scoring();
            lemma_scoring_joins(seen, self.4.leaf_scoring());
            seen = seen + self.4.leaf_scoring();
        }
        scoring0 || scoring1 || scoring2 || scoring3 || scoring4
    }
}

impl<
    A1: PreparedAgg,
    A2: PreparedAgg,
    A3: PreparedAgg,
    A4: PreparedAgg,
    A5: PreparedAgg,
> PreparedAgg for (A1, A2, A3, A4, A5) {
    type Fruit = (A1::Fruit, A2::Fruit, A3::Fruit, A4::Fruit, A5::Fruit);

    type Child = (A1::Child, A2::Child, A3::Child, A4::Child, A5::Child);

    open spec fn inv(&self) -> bool {
        self.0.inv() && self.1.inv() && self.2.inv() && self.3.inv() && self.4.inv()
    }

    open spec fn fruit_ok(&self, fruit: ModelOf<Self::Fruit>) -> bool {
        self.0.fruit_ok(fruit.0)
            && self.1.fruit_ok(fruit.1)
            && self.2.fruit_ok(fruit.2)
            && self.3.fruit_ok(fruit.3)
            && self.4.fruit_ok(fruit.4)
    }

    open spec fn empty(&self) -> ModelOf<Self::Fruit> {
        (self.0.empty(), self.1.empty(), self.2.empty(), self.3.empty(), self.4.empty())
    }

    open spec fn merged(&self, a: ModelOf<Self::Fruit>, b: ModelOf<Self::Fruit>) -> ModelOf<Self::Fruit>
    {
        (
            self.0.merged(a.0, b.0),
            self.1.merged(a.1, b.1),
            self.2.merged(a.2, b.2),
            self.3.merged(a.3, b.3),
            self.4.merged(a.4, b.4),
        )
    }

    open spec fn fits(&self, a: ModelOf<Self::Fruit>, b: ModelOf<Self::Fruit>) -> bool {
        self.0.fits(a.0, b.0)
            && self.1.fits(a.1, b.1)
            && self.2.fits(a.2, b.2)
            && self.3.fits(a.3, b.3)
            && self.4.fits(a.4, b.4)
    }

    open spec fn spawns(&self, meaning: <Self::Child as SegmentAgg>::Meaning) -> bool {
        self.0.spawns(meaning.0)
            && self.1.spawns(meaning.1)
            && self.2.spawns(meaning.2)
            && self.3.spawns(meaning.3)
            && self.4.spawns(meaning.4)
    }

    open spec fn runs_on(&self, reader: tantivy::SegmentReader) -> bool {
        self.0.runs_on(reader)
            && self.1.runs_on(reader)
            && self.2.runs_on(reader)
            && self.3.runs_on(reader)
            && self.4.runs_on(reader)
    }

    open spec fn meaning_on(&self, ctx: AggSegmentContext) -> Result<
        <Self::Child as SegmentAgg>::Meaning,
        AggError,
    > {
        if self.0.meaning_on(ctx) is Err {
            Err(self.0.meaning_on(ctx)->Err_0)
        } else if self.1.meaning_on(ctx) is Err {
            Err(self.1.meaning_on(ctx)->Err_0)
        } else if self.2.meaning_on(ctx) is Err {
            Err(self.2.meaning_on(ctx)->Err_0)
        } else if self.3.meaning_on(ctx) is Err {
            Err(self.3.meaning_on(ctx)->Err_0)
        } else if self.4.meaning_on(ctx) is Err {
            Err(self.4.meaning_on(ctx)->Err_0)
        } else {
            Ok((
                self.0.meaning_on(ctx)->Ok_0,
                self.1.meaning_on(ctx)->Ok_0,
                self.2.meaning_on(ctx)->Ok_0,
                self.3.meaning_on(ctx)->Ok_0,
                self.4.meaning_on(ctx)->Ok_0,
            ))
        }
    }

    open spec fn steady(&self) -> bool {
        self.0.steady() && self.1.steady() && self.2.steady() && self.3.steady() && self.4.steady()
    }

    fn create_fruit(&self) -> (fruit: Self::Fruit) {
        (
            self.0.create_fruit(),
            self.1.create_fruit(),
            self.2.create_fruit(),
            self.3.create_fruit(),
            self.4.create_fruit(),
        )
    }

    fn for_segment(&self, ctx: &AggSegmentContext) -> (r: Result<Self::Child, AggError>) {
        let child0 = match self.0.for_segment(ctx) {
            Ok(child) => child,
            Err(e) => {
                return Err(e);
            },
        };
        let child1 = match self.1.for_segment(ctx) {
            Ok(child) => child,
            Err(e) => {
                return Err(e);
            },
        };
        let child2 = match self.2.for_segment(ctx) {
            Ok(child) => child,
            Err(e) => {
                return Err(e);
            },
        };
        let child3 = match self.3.for_segment(ctx) {
            Ok(child) => child,
            Err(e) => {
                return Err(e);
            },
        };
        let child4 = match self.4.for_segment(ctx) {
            Ok(child) => child,
            Err(e) => {
                return Err(e);
            },
        };
        Ok((child0, child1, child2, child3, child4))
    }

    fn merge(&self, acc: &mut Self::Fruit, fruit: Self::Fruit) {
        let (fruit0, fruit1, fruit2, fruit3, fruit4) = fruit;
        self.0.merge(&mut acc.0, fruit0);
        self.1.merge(&mut acc.1, fruit1);
        self.2.merge(&mut acc.2, fruit2);
        self.3.merge(&mut acc.3, fruit3);
        self.4.merge(&mut acc.4, fruit4);
    }

    proof fn law_identity(&self, a: ModelOf<Self::Fruit>) {
        self.0.law_identity(a.0);
        self.1.law_identity(a.1);
        self.2.law_identity(a.2);
        self.3.law_identity(a.3);
        self.4.law_identity(a.4);
    }

    proof fn law_commutative(&self, a: ModelOf<Self::Fruit>, b: ModelOf<Self::Fruit>) {
        self.0.law_commutative(a.0, b.0);
        self.1.law_commutative(a.1, b.1);
        self.2.law_commutative(a.2, b.2);
        self.3.law_commutative(a.3, b.3);
        self.4.law_commutative(a.4, b.4);
    }

    proof fn law_associative(
        &self,
        a: ModelOf<Self::Fruit>,
        b: ModelOf<Self::Fruit>,
        c: ModelOf<Self::Fruit>,
    ) {
        self.0.law_associative(a.0, b.0, c.0);
        self.1.law_associative(a.1, b.1, c.1);
        self.2.law_associative(a.2, b.2, c.2);
        self.3.law_associative(a.3, b.3, c.3);
        self.4.law_associative(a.4, b.4, c.4);
    }

    proof fn law_child(&self, meaning: <Self::Child as SegmentAgg>::Meaning) {
        self.0.law_child(meaning.0);
        self.0.law_identity(self.0.empty());
        self.1.law_child(meaning.1);
        self.1.law_identity(self.1.empty());
        self.2.law_child(meaning.2);
        self.2.law_identity(self.2.empty());
        self.3.law_child(meaning.3);
        self.3.law_identity(self.3.empty());
        self.4.law_child(meaning.4);
        self.4.law_identity(self.4.empty());
        assert forall|a: ModelOf<Self::Fruit>, b: ModelOf<Self::Fruit>| #[trigger]
            Self::Child::merged(meaning, a, b) == self.merged(a, b) by {
            assert(A1::Child::merged(meaning.0, a.0, b.0) == self.0.merged(a.0, b.0));
            assert(A2::Child::merged(meaning.1, a.1, b.1) == self.1.merged(a.1, b.1));
            assert(A3::Child::merged(meaning.2, a.2, b.2) == self.2.merged(a.2, b.2));
            assert(A4::Child::merged(meaning.3, a.3, b.3) == self.3.merged(a.3, b.3));
            assert(A5::Child::merged(meaning.4, a.4, b.4) == self.4.merged(a.4, b.4));
        }
        assert forall|a: ModelOf<Self::Fruit>| #[trigger]
            Self::Child::fruit_ok(meaning, a) == self.fruit_ok(a) by {
            assert(A1::Child::fruit_ok(meaning.0, a.0) == self.0.fruit_ok(a.0));
            assert(A2::Child::fruit_ok(meaning.1, a.1) == self.1.fruit_ok(a.1));
            assert(A3::Child::fruit_ok(meaning.2, a.2) == self.2.fruit_ok(a.2));
            assert(A4::Child::fruit_ok(meaning.3, a.3) == self.3.fruit_ok(a.3));
            assert(A5::Child::fruit_ok(meaning.4, a.4) == self.4.fruit_ok(a.4));
        }
        assert forall|doc: DocId, score: ScoreBits, i: int|
            0 <= i < Self::Child::contributions(meaning, doc, score).len() implies self.fruit_ok(
            #[trigger] Self::Child::contributions(meaning, doc, score)[i],
        ) by {
            let ok = |f: ModelOf<Self::Fruit>| self.fruit_ok(f);
            let part0 = A1::Child::contributions(meaning.0, doc, score).map_values(
                |d: ModelOf<A1::Fruit>| (
                    d,
                    A2::Child::empty(meaning.1),
                    A3::Child::empty(meaning.2),
                    A4::Child::empty(meaning.3),
                    A5::Child::empty(meaning.4),
                ),
            );
            assert forall|j: int| 0 <= j < part0.len() implies ok(#[trigger] part0[j]) by {
                assert(self.0.fruit_ok(A1::Child::contributions(meaning.0, doc, score)[j]));
            }
            let part1 = A2::Child::contributions(meaning.1, doc, score).map_values(
                |d: ModelOf<A2::Fruit>| (
                    A1::Child::empty(meaning.0),
                    d,
                    A3::Child::empty(meaning.2),
                    A4::Child::empty(meaning.3),
                    A5::Child::empty(meaning.4),
                ),
            );
            assert forall|j: int| 0 <= j < part1.len() implies ok(#[trigger] part1[j]) by {
                assert(self.1.fruit_ok(A2::Child::contributions(meaning.1, doc, score)[j]));
            }
            let part2 = A3::Child::contributions(meaning.2, doc, score).map_values(
                |d: ModelOf<A3::Fruit>| (
                    A1::Child::empty(meaning.0),
                    A2::Child::empty(meaning.1),
                    d,
                    A4::Child::empty(meaning.3),
                    A5::Child::empty(meaning.4),
                ),
            );
            assert forall|j: int| 0 <= j < part2.len() implies ok(#[trigger] part2[j]) by {
                assert(self.2.fruit_ok(A3::Child::contributions(meaning.2, doc, score)[j]));
            }
            let part3 = A4::Child::contributions(meaning.3, doc, score).map_values(
                |d: ModelOf<A4::Fruit>| (
                    A1::Child::empty(meaning.0),
                    A2::Child::empty(meaning.1),
                    A3::Child::empty(meaning.2),
                    d,
                    A5::Child::empty(meaning.4),
                ),
            );
            assert forall|j: int| 0 <= j < part3.len() implies ok(#[trigger] part3[j]) by {
                assert(self.3.fruit_ok(A4::Child::contributions(meaning.3, doc, score)[j]));
            }
            let part4 = A5::Child::contributions(meaning.4, doc, score).map_values(
                |d: ModelOf<A5::Fruit>| (
                    A1::Child::empty(meaning.0),
                    A2::Child::empty(meaning.1),
                    A3::Child::empty(meaning.2),
                    A4::Child::empty(meaning.3),
                    d,
                ),
            );
            assert forall|j: int| 0 <= j < part4.len() implies ok(#[trigger] part4[j]) by {
                assert(self.4.fruit_ok(A5::Child::contributions(meaning.4, doc, score)[j]));
            }
            lemma_all_joined(ok, part0, part1);
            lemma_all_joined(ok, part0 + part1, part2);
            lemma_all_joined(ok, part0 + part1 + part2, part3);
            lemma_all_joined(ok, part0 + part1 + part2 + part3, part4);
        }
    }
}

impl<
    A1: SegmentAgg,
    A2: SegmentAgg,
    A3: SegmentAgg,
    A4: SegmentAgg,
    A5: SegmentAgg,
> SegmentAgg for (A1, A2, A3, A4, A5) {
    type Fruit = (A1::Fruit, A2::Fruit, A3::Fruit, A4::Fruit, A5::Fruit);

    type Meaning = (A1::Meaning, A2::Meaning, A3::Meaning, A4::Meaning, A5::Meaning);

    open spec fn meaning(&self) -> Self::Meaning {
        (self.0.meaning(), self.1.meaning(), self.2.meaning(), self.3.meaning(), self.4.meaning())
    }

    open spec fn inv(&self) -> bool {
        self.0.inv() && self.1.inv() && self.2.inv() && self.3.inv() && self.4.inv()
    }

    open spec fn frontier(&self) -> nat {
        let front = self.0.frontier();
        let front = highest(front, self.1.frontier());
        let front = highest(front, self.2.frontier());
        let front = highest(front, self.3.frontier());
        let front = highest(front, self.4.frontier());
        front
    }

    open spec fn doc_limit(meaning: Self::Meaning) -> nat {
        let limit = A1::doc_limit(meaning.0);
        let limit = lowest(limit, A2::doc_limit(meaning.1));
        let limit = lowest(limit, A3::doc_limit(meaning.2));
        let limit = lowest(limit, A4::doc_limit(meaning.3));
        let limit = lowest(limit, A5::doc_limit(meaning.4));
        limit
    }

    open spec fn fruit_ok(meaning: Self::Meaning, fruit: ModelOf<Self::Fruit>) -> bool {
        A1::fruit_ok(meaning.0, fruit.0)
            && A2::fruit_ok(meaning.1, fruit.1)
            && A3::fruit_ok(meaning.2, fruit.2)
            && A4::fruit_ok(meaning.3, fruit.3)
            && A5::fruit_ok(meaning.4, fruit.4)
    }

    open spec fn empty(meaning: Self::Meaning) -> ModelOf<Self::Fruit> {
        (
            A1::empty(meaning.0),
            A2::empty(meaning.1),
            A3::empty(meaning.2),
            A4::empty(meaning.3),
            A5::empty(meaning.4),
        )
    }

    open spec fn merged(
        meaning: Self::Meaning,
        a: ModelOf<Self::Fruit>,
        b: ModelOf<Self::Fruit>,
    ) -> ModelOf<Self::Fruit> {
        (
            A1::merged(meaning.0, a.0, b.0),
            A2::merged(meaning.1, a.1, b.1),
            A3::merged(meaning.2, a.2, b.2),
            A4::merged(meaning.3, a.3, b.3),
            A5::merged(meaning.4, a.4, b.4),
        )
    }

    open spec fn contributions(meaning: Self::Meaning, doc: DocId, score: ScoreBits) -> Seq<
        ModelOf<Self::Fruit>,
    > {
        A1::contributions(meaning.0, doc, score).map_values(
                |d: ModelOf<A1::Fruit>| (
                    d,
                    A2::empty(meaning.1),
                    A3::empty(meaning.2),
                    A4::empty(meaning.3),
                    A5::empty(meaning.4),
                ),
            )
            + A2::contributions(meaning.1, doc, score).map_values(
                |d: ModelOf<A2::Fruit>| (
                    A1::empty(meaning.0),
                    d,
                    A3::empty(meaning.2),
                    A4::empty(meaning.3),
                    A5::empty(meaning.4),
                ),
            )
            + A3::contributions(meaning.2, doc, score).map_values(
                |d: ModelOf<A3::Fruit>| (
                    A1::empty(meaning.0),
                    A2::empty(meaning.1),
                    d,
                    A4::empty(meaning.3),
                    A5::empty(meaning.4),
                ),
            )
            + A4::contributions(meaning.3, doc, score).map_values(
                |d: ModelOf<A4::Fruit>| (
                    A1::empty(meaning.0),
                    A2::empty(meaning.1),
                    A3::empty(meaning.2),
                    d,
                    A5::empty(meaning.4),
                ),
            )
            + A5::contributions(meaning.4, doc, score).map_values(
                |d: ModelOf<A5::Fruit>| (
                    A1::empty(meaning.0),
                    A2::empty(meaning.1),
                    A3::empty(meaning.2),
                    A4::empty(meaning.3),
                    d,
                ),
            )
    }

    fn create_fruit(&self) -> (fruit: Self::Fruit) {
        (
            self.0.create_fruit(),
            self.1.create_fruit(),
            self.2.create_fruit(),
            self.3.create_fruit(),
            self.4.create_fruit(),
        )
    }

    proof fn law_empty(meaning: Self::Meaning, a: ModelOf<Self::Fruit>) {
        A1::law_empty(meaning.0, a.0);
        A2::law_empty(meaning.1, a.1);
        A3::law_empty(meaning.2, a.2);
        A4::law_empty(meaning.3, a.3);
        A5::law_empty(meaning.4, a.4);
    }

    fn collect(&mut self, doc: DocId, score: ScoreBits, output: &mut Self::Fruit) {
        let ghost meaning = self.meaning();
        let ghost outer = |a: ModelOf<Self::Fruit>, b: ModelOf<Self::Fruit>|
            Self::merged(meaning, a, b);
        let ghost start = output.model();
        let ghost mut done: Seq<ModelOf<Self::Fruit>> = Seq::empty();
        proof {
            lemma_folded_one(outer, start, start);
            assert forall|c: ModelOf<A1::Fruit>| A1::fruit_ok(meaning.0, c) implies #[trigger]
                A1::merged(meaning.0, c, A1::empty(meaning.0)) == c by {
                A1::law_empty(meaning.0, c);
            }
            assert forall|c: ModelOf<A2::Fruit>| A2::fruit_ok(meaning.1, c) implies #[trigger]
                A2::merged(meaning.1, c, A2::empty(meaning.1)) == c by {
                A2::law_empty(meaning.1, c);
            }
            assert forall|c: ModelOf<A3::Fruit>| A3::fruit_ok(meaning.2, c) implies #[trigger]
                A3::merged(meaning.2, c, A3::empty(meaning.2)) == c by {
                A3::law_empty(meaning.2, c);
            }
            assert forall|c: ModelOf<A4::Fruit>| A4::fruit_ok(meaning.3, c) implies #[trigger]
                A4::merged(meaning.3, c, A4::empty(meaning.3)) == c by {
                A4::law_empty(meaning.3, c);
            }
            assert forall|c: ModelOf<A5::Fruit>| A5::fruit_ok(meaning.4, c) implies #[trigger]
                A5::merged(meaning.4, c, A5::empty(meaning.4)) == c by {
                A5::law_empty(meaning.4, c);
            }
        }
        let ghost before = output.model();
        self.0.collect(doc, score, &mut output.0);
        proof {
            let put = |x: ModelOf<A1::Fruit>| (x, before.1, before.2, before.3, before.4);
            let lift = |d: ModelOf<A1::Fruit>| (
                d,
                A2::empty(meaning.1),
                A3::empty(meaning.2),
                A4::empty(meaning.3),
                A5::empty(meaning.4),
            );
            let inner = |a: ModelOf<A1::Fruit>, b: ModelOf<A1::Fruit>|
                A1::merged(meaning.0, a, b);
            let part = A1::contributions(meaning.0, doc, score);
            lemma_folded_through(inner, outer, put, lift, before.0, part);
            assert(put(before.0) == before);
            assert(output.model() == put(folded(inner, before.0, part)));
            lemma_folded_parts(outer, start, done, part.map_values(lift));
            done = done + part.map_values(lift);
        }
        let ghost before = output.model();
        self.1.collect(doc, score, &mut output.1);
        proof {
            let put = |x: ModelOf<A2::Fruit>| (before.0, x, before.2, before.3, before.4);
            let lift = |d: ModelOf<A2::Fruit>| (
                A1::empty(meaning.0),
                d,
                A3::empty(meaning.2),
                A4::empty(meaning.3),
                A5::empty(meaning.4),
            );
            let inner = |a: ModelOf<A2::Fruit>, b: ModelOf<A2::Fruit>|
                A2::merged(meaning.1, a, b);
            let part = A2::contributions(meaning.1, doc, score);
            lemma_folded_through(inner, outer, put, lift, before.1, part);
            assert(put(before.1) == before);
            assert(output.model() == put(folded(inner, before.1, part)));
            lemma_folded_parts(outer, start, done, part.map_values(lift));
            done = done + part.map_values(lift);
        }
        let ghost before = output.model();
        self.2.collect(doc, score, &mut output.2);
        proof {
            let put = |x: ModelOf<A3::Fruit>| (before.0, before.1, x, before.3, before.4);
            let lift = |d: ModelOf<A3::Fruit>| (
                A1::empty(meaning.0),
                A2::empty(meaning.1),
                d,
                A4::empty(meaning.3),
                A5::empty(meaning.4),
            );
            let inner = |a: ModelOf<A3::Fruit>, b: ModelOf<A3::Fruit>|
                A3::merged(meaning.2, a, b);
            let part = A3::contributions(meaning.2, doc, score);
            lemma_folded_through(inner, outer, put, lift, before.2, part);
            assert(put(before.2) == before);
            assert(output.model() == put(folded(inner, before.2, part)));
            lemma_folded_parts(outer, start, done, part.map_values(lift));
            done = done + part.map_values(lift);
        }
        let ghost before = output.model();
        self.3.collect(doc, score, &mut output.3);
        proof {
            let put = |x: ModelOf<A4::Fruit>| (before.0, before.1, before.2, x, before.4);
            let lift = |d: ModelOf<A4::Fruit>| (
                A1::empty(meaning.0),
                A2::empty(meaning.1),
                A3::empty(meaning.2),
                d,
                A5::empty(meaning.4),
            );
            let inner = |a: ModelOf<A4::Fruit>, b: ModelOf<A4::Fruit>|
                A4::merged(meaning.3, a, b);
            let part = A4::contributions(meaning.3, doc, score);
            lemma_folded_through(inner, outer, put, lift, before.3, part);
            assert(put(before.3) == before);
            assert(output.model() == put(folded(inner, before.3, part)));
            lemma_folded_parts(outer, start, done, part.map_values(lift));
            done = done + part.map_values(lift);
        }
        let ghost before = output.model();
        self.4.collect(doc, score, &mut output.4);
        proof {
            let put = |x: ModelOf<A5::Fruit>| (before.0, before.1, before.2, before.3, x);
            let lift = |d: ModelOf<A5::Fruit>| (
                A1::empty(meaning.0),
                A2::empty(meaning.1),
                A3::empty(meaning.2),
                A4::empty(meaning.3),
                d,
            );
            let inner = |a: ModelOf<A5::Fruit>, b: ModelOf<A5::Fruit>|
                A5::merged(meaning.4, a, b);
            let part = A5::contributions(meaning.4, doc, score);
            lemma_folded_through(inner, outer, put, lift, before.4, part);
            assert(put(before.4) == before);
            assert(output.model() == put(folded(inner, before.4, part)));
            lemma_folded_parts(outer, start, done, part.map_values(lift));
            done = done + part.map_values(lift);
        }
        proof {
            assert(done =~= Self::contributions(meaning, doc, score));
        }
    }
}

impl<
    A1: FruitModel,
    A2: FruitModel,
    A3: FruitModel,
    A4: FruitModel,
    A5: FruitModel,
    A6: FruitModel,
> FruitModel for (A1, A2, A3, A4, A5, A6) {
    type Model = (A1::Model, A2::Model, A3::Model, A4::Model, A5::Model, A6::Model);

    open spec fn model(&self) -> Self::Model {
        (
            self.0.model(),
            self.1.model(),
            self.2.model(),
            self.3.model(),
            self.4.model(),
            self.5.model(),
        )
    }
}

impl<A1: Agg, A2: Agg, A3: Agg, A4: Agg, A5: Agg, A6: Agg> Agg for (A1, A2, A3, A4, A5, A6) {
    type Fruit = (A1::Fruit, A2::Fruit, A3::Fruit, A4::Fruit, A5::Fruit, A6::Fruit);

    type Child = (A1::Child, A2::Child, A3::Child, A4::Child, A5::Child, A6::Child);

    open spec fn leaf_scoring(&self) -> Seq<bool> {
        self.0.leaf_scoring()
            + self.1.leaf_scoring()
            + self.2.leaf_scoring()
            + self.3.leaf_scoring()
            + self.4.leaf_scoring()
            + self.5.leaf_scoring()
    }

    open spec fn inv(&self) -> bool {
        self.0.inv() && self.1.inv() && self.2.inv() && self.3.inv() && self.4.inv() && self.5.inv()
    }

    open spec fn steady(&self) -> bool {
        self.0.steady()
            && self.1.steady()
            && self.2.steady()
            && self.3.steady()
            && self.4.steady()
            && self.5.steady()
    }

    open spec fn runs_on(&self, searcher: tantivy::Searcher) -> bool {
        self.0.runs_on(searcher)
            && self.1.runs_on(searcher)
            && self.2.runs_on(searcher)
            && self.3.runs_on(searcher)
            && self.4.runs_on(searcher)
            && self.5.runs_on(searcher)
    }

    open spec fn prepare_error(&self, searcher: tantivy::Searcher) -> Option<AggError> {
        if self.0.prepare_error(searcher) is Some {
            self.0.prepare_error(searcher)
        } else if self.1.prepare_error(searcher) is Some {
            self.1.prepare_error(searcher)
        } else if self.2.prepare_error(searcher) is Some {
            self.2.prepare_error(searcher)
        } else if self.3.prepare_error(searcher) is Some {
            self.3.prepare_error(searcher)
        } else if self.4.prepare_error(searcher) is Some {
            self.4.prepare_error(searcher)
        } else {
            self.5.prepare_error(searcher)
        }
    }

    open spec fn prepared_by(&self, searcher: tantivy::Searcher, prepared: Self::Child) -> bool {
        self.0.prepared_by(searcher, prepared.0)
            && self.1.prepared_by(searcher, prepared.1)
            && self.2.prepared_by(searcher, prepared.2)
            && self.3.prepared_by(searcher, prepared.3)
            && self.4.prepared_by(searcher, prepared.4)
            && self.5.prepared_by(searcher, prepared.5)
    }

    open spec fn prepares(&self, prepared: Self::Child) -> bool {
        self.0.prepares(prepared.0)
            && self.1.prepares(prepared.1)
            && self.2.prepares(prepared.2)
            && self.3.prepares(prepared.3)
            && self.4.prepares(prepared.4)
            && self.5.prepares(prepared.5)
    }

    fn prepare(&self, searcher: &tantivy::Searcher) -> (r: Result<Self::Child, AggError>) {
        let prepared0 = match self.0.prepare(searcher) {
            Ok(prepared) => prepared,
            Err(e) => {
                return Err(e);
            },
        };
        let prepared1 = match self.1.prepare(searcher) {
            Ok(prepared) => prepared,
            Err(e) => {
                return Err(e);
            },
        };
        let prepared2 = match self.2.prepare(searcher) {
            Ok(prepared) => prepared,
            Err(e) => {
                return Err(e);
            },
        };
        let prepared3 = match self.3.prepare(searcher) {
            Ok(prepared) => prepared,
            Err(e) => {
                return Err(e);
            },
        };
        let prepared4 = match self.4.prepare(searcher) {
            Ok(prepared) => prepared,
            Err(e) => {
                return Err(e);
            },
        };
        let prepared5 = match self.5.prepare(searcher) {
            Ok(prepared) => prepared,
            Err(e) => {
                return Err(e);
            },
        };
        Ok((prepared0, prepared1, prepared2, prepared3, prepared4, prepared5))
    }

    fn requires_scoring(&self) -> (scoring: bool) {
        let scoring0 = self.0.requires_scoring();
        let scoring1 = self.1.requires_scoring();
        let scoring2 = self.2.requires_scoring();
        let scoring3 = self.3.requires_scoring();
        let scoring4 = self.4.requires_scoring();
        let scoring5 = self.5.requires_scoring();
        proof {
            let mut seen = self.0.leaf_scoring();
            lemma_scoring_joins(seen, self.1.leaf_scoring());
            seen = seen + self.1.leaf_scoring();
            lemma_scoring_joins(seen, self.2.leaf_scoring());
            seen = seen + self.2.leaf_scoring();
            lemma_scoring_joins(seen, self.3.leaf_scoring());
            seen = seen + self.3.leaf_scoring();
            lemma_scoring_joins(seen, self.4.leaf_scoring());
            seen = seen + self.4.leaf_scoring();
            lemma_scoring_joins(seen, self.5.leaf_scoring());
            seen = seen + self.5.leaf_scoring();
        }
        scoring0 || scoring1 || scoring2 || scoring3 || scoring4 || scoring5
    }
}

impl<
    A1: PreparedAgg,
    A2: PreparedAgg,
    A3: PreparedAgg,
    A4: PreparedAgg,
    A5: PreparedAgg,
    A6: PreparedAgg,
> PreparedAgg for (A1, A2, A3, A4, A5, A6) {
    type Fruit = (A1::Fruit, A2::Fruit, A3::Fruit, A4::Fruit, A5::Fruit, A6::Fruit);

    type Child = (A1::Child, A2::Child, A3::Child, A4::Child, A5::Child, A6::Child);

    open spec fn inv(&self) -> bool {
        self.0.inv() && self.1.inv() && self.2.inv() && self.3.inv() && self.4.inv() && self.5.inv()
    }

    open spec fn fruit_ok(&self, fruit: ModelOf<Self::Fruit>) -> bool {
        self.0.fruit_ok(fruit.0)
            && self.1.fruit_ok(fruit.1)
            && self.2.fruit_ok(fruit.2)
            && self.3.fruit_ok(fruit.3)
            && self.4.fruit_ok(fruit.4)
            && self.5.fruit_ok(fruit.5)
    }

    open spec fn empty(&self) -> ModelOf<Self::Fruit> {
        (
            self.0.empty(),
            self.1.empty(),
            self.2.empty(),
            self.3.empty(),
            self.4.empty(),
            self.5.empty(),
        )
    }

    open spec fn merged(&self, a: ModelOf<Self::Fruit>, b: ModelOf<Self::Fruit>) -> ModelOf<Self::Fruit>
    {
        (
            self.0.merged(a.0, b.0),
            self.1.merged(a.1, b.1),
            self.2.merged(a.2, b.2),
            self.3.merged(a.3, b.3),
            self.4.merged(a.4, b.4),
            self.5.merged(a.5, b.5),
        )
    }

    open spec fn fits(&self, a: ModelOf<Self::Fruit>, b: ModelOf<Self::Fruit>) -> bool {
        self.0.fits(a.0, b.0)
            && self.1.fits(a.1, b.1)
            && self.2.fits(a.2, b.2)
            && self.3.fits(a.3, b.3)
            && self.4.fits(a.4, b.4)
            && self.5.fits(a.5, b.5)
    }

    open spec fn spawns(&self, meaning: <Self::Child as SegmentAgg>::Meaning) -> bool {
        self.0.spawns(meaning.0)
            && self.1.spawns(meaning.1)
            && self.2.spawns(meaning.2)
            && self.3.spawns(meaning.3)
            && self.4.spawns(meaning.4)
            && self.5.spawns(meaning.5)
    }

    open spec fn runs_on(&self, reader: tantivy::SegmentReader) -> bool {
        self.0.runs_on(reader)
            && self.1.runs_on(reader)
            && self.2.runs_on(reader)
            && self.3.runs_on(reader)
            && self.4.runs_on(reader)
            && self.5.runs_on(reader)
    }

    open spec fn meaning_on(&self, ctx: AggSegmentContext) -> Result<
        <Self::Child as SegmentAgg>::Meaning,
        AggError,
    > {
        if self.0.meaning_on(ctx) is Err {
            Err(self.0.meaning_on(ctx)->Err_0)
        } else if self.1.meaning_on(ctx) is Err {
            Err(self.1.meaning_on(ctx)->Err_0)
        } else if self.2.meaning_on(ctx) is Err {
            Err(self.2.meaning_on(ctx)->Err_0)
        } else if self.3.meaning_on(ctx) is Err {
            Err(self.3.meaning_on(ctx)->Err_0)
        } else if self.4.meaning_on(ctx) is Err {
            Err(self.4.meaning_on(ctx)->Err_0)
        } else if self.5.meaning_on(ctx) is Err {
            Err(self.5.meaning_on(ctx)->Err_0)
        } else {
            Ok((
                self.0.meaning_on(ctx)->Ok_0,
                self.1.meaning_on(ctx)->Ok_0,
                self.2.meaning_on(ctx)->Ok_0,
                self.3.meaning_on(ctx)->Ok_0,
                self.4.meaning_on(ctx)->Ok_0,
                self.5.meaning_on(ctx)->Ok_0,
            ))
        }
    }

    open spec fn steady(&self) -> bool {
        self.0.steady()
            && self.1.steady()
            && self.2.steady()
            && self.3.steady()
            && self.4.steady()
            && self.5.steady()
    }

    fn create_fruit(&self) -> (fruit: Self::Fruit) {
        (
            self.0.create_fruit(),
            self.1.create_fruit(),
            self.2.create_fruit(),
            self.3.create_fruit(),
            self.4.create_fruit(),
            self.5.create_fruit(),
        )
    }

    fn for_segment(&self, ctx: &AggSegmentContext) -> (r: Result<Self::Child, AggError>) {
        let child0 = match self.0.for_segment(ctx) {
            Ok(child) => child,
            Err(e) => {
                return Err(e);
            },
        };
        let child1 = match self.1.for_segment(ctx) {
            Ok(child) => child,
            Err(e) => {
                return Err(e);
            },
        };
        let child2 = match self.2.for_segment(ctx) {
            Ok(child) => child,
            Err(e) => {
                return Err(e);
            },
        };
        let child3 = match self.3.for_segment(ctx) {
            Ok(child) => child,
            Err(e) => {
                return Err(e);
            },
        };
        let child4 = match self.4.for_segment(ctx) {
            Ok(child) => child,
            Err(e) => {
                return Err(e);
            },
        };
        let child5 = match self.5.for_segment(ctx) {
            Ok(child) => child,
            Err(e) => {
                return Err(e);
            },
        };
        Ok((child0, child1, child2, child3, child4, child5))
    }

    fn merge(&self, acc: &mut Self::Fruit, fruit: Self::Fruit) {
        let (fruit0, fruit1, fruit2, fruit3, fruit4, fruit5) = fruit;
        self.0.merge(&mut acc.0, fruit0);
        self.1.merge(&mut acc.1, fruit1);
        self.2.merge(&mut acc.2, fruit2);
        self.3.merge(&mut acc.3, fruit3);
        self.4.merge(&mut acc.4, fruit4);
        self.5.merge(&mut acc.5, fruit5);
    }

    proof fn law_identity(&self, a: ModelOf<Self::Fruit>) {
        self.0.law_identity(a.0);
        self.1.law_identity(a.1);
        self.2.law_identity(a.2);
        self.3.law_identity(a.3);
        self.4.law_identity(a.4);
        self.5.law_identity(a.5);
    }

    proof fn law_commutative(&self, a: ModelOf<Self::Fruit>, b: ModelOf<Self::Fruit>) {
        self.0.law_commutative(a.0, b.0);
        self.1.law_commutative(a.1, b.1);
        self.2.law_commutative(a.2, b.2);
        self.3.law_commutative(a.3, b.3);
        self.4.law_commutative(a.4, b.4);
        self.5.law_commutative(a.5, b.5);
    }

    proof fn law_associative(
        &self,
        a: ModelOf<Self::Fruit>,
        b: ModelOf<Self::Fruit>,
        c: ModelOf<Self::Fruit>,
    ) {
        self.0.law_associative(a.0, b.0, c.0);
        self.1.law_associative(a.1, b.1, c.1);
        self.2.law_associative(a.2, b.2, c.2);
        self.3.law_associative(a.3, b.3, c.3);
        self.4.law_associative(a.4, b.4, c.4);
        self.5.law_associative(a.5, b.5, c.5);
    }

    proof fn law_child(&self, meaning: <Self::Child as SegmentAgg>::Meaning) {
        self.0.law_child(meaning.0);
        self.0.law_identity(self.0.empty());
        self.1.law_child(meaning.1);
        self.1.law_identity(self.1.empty());
        self.2.law_child(meaning.2);
        self.2.law_identity(self.2.empty());
        self.3.law_child(meaning.3);
        self.3.law_identity(self.3.empty());
        self.4.law_child(meaning.4);
        self.4.law_identity(self.4.empty());
        self.5.law_child(meaning.5);
        self.5.law_identity(self.5.empty());
        assert forall|a: ModelOf<Self::Fruit>, b: ModelOf<Self::Fruit>| #[trigger]
            Self::Child::merged(meaning, a, b) == self.merged(a, b) by {
            assert(A1::Child::merged(meaning.0, a.0, b.0) == self.0.merged(a.0, b.0));
            assert(A2::Child::merged(meaning.1, a.1, b.1) == self.1.merged(a.1, b.1));
            assert(A3::Child::merged(meaning.2, a.2, b.2) == self.2.merged(a.2, b.2));
            assert(A4::Child::merged(meaning.3, a.3, b.3) == self.3.merged(a.3, b.3));
            assert(A5::Child::merged(meaning.4, a.4, b.4) == self.4.merged(a.4, b.4));
            assert(A6::Child::merged(meaning.5, a.5, b.5) == self.5.merged(a.5, b.5));
        }
        assert forall|a: ModelOf<Self::Fruit>| #[trigger]
            Self::Child::fruit_ok(meaning, a) == self.fruit_ok(a) by {
            assert(A1::Child::fruit_ok(meaning.0, a.0) == self.0.fruit_ok(a.0));
            assert(A2::Child::fruit_ok(meaning.1, a.1) == self.1.fruit_ok(a.1));
            assert(A3::Child::fruit_ok(meaning.2, a.2) == self.2.fruit_ok(a.2));
            assert(A4::Child::fruit_ok(meaning.3, a.3) == self.3.fruit_ok(a.3));
            assert(A5::Child::fruit_ok(meaning.4, a.4) == self.4.fruit_ok(a.4));
            assert(A6::Child::fruit_ok(meaning.5, a.5) == self.5.fruit_ok(a.5));
        }
        assert forall|doc: DocId, score: ScoreBits, i: int|
            0 <= i < Self::Child::contributions(meaning, doc, score).len() implies self.fruit_ok(
            #[trigger] Self::Child::contributions(meaning, doc, score)[i],
        ) by {
            let ok = |f: ModelOf<Self::Fruit>| self.fruit_ok(f);
            let part0 = A1::Child::contributions(meaning.0, doc, score).map_values(
                |d: ModelOf<A1::Fruit>| (
                    d,
                    A2::Child::empty(meaning.1),
                    A3::Child::empty(meaning.2),
                    A4::Child::empty(meaning.3),
                    A5::Child::empty(meaning.4),
                    A6::Child::empty(meaning.5),
                ),
            );
            assert forall|j: int| 0 <= j < part0.len() implies ok(#[trigger] part0[j]) by {
                assert(self.0.fruit_ok(A1::Child::contributions(meaning.0, doc, score)[j]));
            }
            let part1 = A2::Child::contributions(meaning.1, doc, score).map_values(
                |d: ModelOf<A2::Fruit>| (
                    A1::Child::empty(meaning.0),
                    d,
                    A3::Child::empty(meaning.2),
                    A4::Child::empty(meaning.3),
                    A5::Child::empty(meaning.4),
                    A6::Child::empty(meaning.5),
                ),
            );
            assert forall|j: int| 0 <= j < part1.len() implies ok(#[trigger] part1[j]) by {
                assert(self.1.fruit_ok(A2::Child::contributions(meaning.1, doc, score)[j]));
            }
            let part2 = A3::Child::contributions(meaning.2, doc, score).map_values(
                |d: ModelOf<A3::Fruit>| (
                    A1::Child::empty(meaning.0),
                    A2::Child::empty(meaning.1),
                    d,
                    A4::Child::empty(meaning.3),
                    A5::Child::empty(meaning.4),
                    A6::Child::empty(meaning.5),
                ),
            );
            assert forall|j: int| 0 <= j < part2.len() implies ok(#[trigger] part2[j]) by {
                assert(self.2.fruit_ok(A3::Child::contributions(meaning.2, doc, score)[j]));
            }
            let part3 = A4::Child::contributions(meaning.3, doc, score).map_values(
                |d: ModelOf<A4::Fruit>| (
                    A1::Child::empty(meaning.0),
                    A2::Child::empty(meaning.1),
                    A3::Child::empty(meaning.2),
                    d,
                    A5::Child::empty(meaning.4),
                    A6::Child::empty(meaning.5),
                ),
            );
            assert forall|j: int| 0 <= j < part3.len() implies ok(#[trigger] part3[j]) by {
                assert(self.3.fruit_ok(A4::Child::contributions(meaning.3, doc, score)[j]));
            }
            let part4 = A5::Child::contributions(meaning.4, doc, score).map_values(
                |d: ModelOf<A5::Fruit>| (
                    A1::Child::empty(meaning.0),
                    A2::Child::empty(meaning.1),
                    A3::Child::empty(meaning.2),
                    A4::Child::empty(meaning.3),
                    d,
                    A6::Child::empty(meaning.5),
                ),
            );
            assert forall|j: int| 0 <= j < part4.len() implies ok(#[trigger] part4[j]) by {
                assert(self.4.fruit_ok(A5::Child::contributions(meaning.4, doc, score)[j]));
            }
            let part5 = A6::Child::contributions(meaning.5, doc, score).map_values(
                |d: ModelOf<A6::Fruit>| (
                    A1::Child::empty(meaning.0),
                    A2::Child::empty(meaning.1),
                    A3::Child::empty(meaning.2),
                    A4::Child::empty(meaning.3),
                    A5::Child::empty(meaning.4),
                    d,
                ),
            );
            assert forall|j: int| 0 <= j < part5.len() implies ok(#[trigger] part5[j]) by {
                assert(self.5.fruit_ok(A6::Child::contributions(meaning.5, doc, score)[j]));
            }
            lemma_all_joined(ok, part0, part1);
            lemma_all_joined(ok, part0 + part1, part2);
            lemma_all_joined(ok, part0 + part1 + part2, part3);
            lemma_all_joined(ok, part0 + part1 + part2 + part3, part4);
            lemma_all_joined(ok, part0 + part1 + part2 + part3 + part4, part5);
        }
    }
}

impl<
    A1: SegmentAgg,
    A2: SegmentAgg,
    A3: SegmentAgg,
    A4: SegmentAgg,
    A5: SegmentAgg,
    A6: SegmentAgg,
> SegmentAgg for (A1, A2, A3, A4, A5, A6) {
    type Fruit = (A1::Fruit, A2::Fruit, A3::Fruit, A4::Fruit, A5::Fruit, A6::Fruit);

    type Meaning = (A1::Meaning, A2::Meaning, A3::Meaning, A4::Meaning, A5::Meaning, A6::Meaning);

    open spec fn meaning(&self) -> Self::Meaning {
        (
            self.0.meaning(),
            self.1.meaning(),
            self.2.meaning(),
            self.3.meaning(),
            self.4.meaning(),
            self.5.meaning(),
        )
    }

    open spec fn inv(&self) -> bool {
        self.0.inv() && self.1.inv() && self.2.inv() && self.3.inv() && self.4.inv() && self.5.inv()
    }

    open spec fn frontier(&self) -> nat {
        let front = self.0.frontier();
        let front = highest(front, self.1.frontier());
        let front = highest(front, self.2.frontier());
        let front = highest(front, self.3.frontier());
        let front = highest(front, self.4.frontier());
        let front = highest(front, self.5.frontier());
        front
    }

    open spec fn doc_limit(meaning: Self::Meaning) -> nat {
        let limit = A1::doc_limit(meaning.0);
        let limit = lowest(limit, A2::doc_limit(meaning.1));
        let limit = lowest(limit, A3::doc_limit(meaning.2));
        let limit = lowest(limit, A4::doc_limit(meaning.3));
        let limit = lowest(limit, A5::doc_limit(meaning.4));
        let limit = lowest(limit, A6::doc_limit(meaning.5));
        limit
    }

    open spec fn fruit_ok(meaning: Self::Meaning, fruit: ModelOf<Self::Fruit>) -> bool {
        A1::fruit_ok(meaning.0, fruit.0)
            && A2::fruit_ok(meaning.1, fruit.1)
            && A3::fruit_ok(meaning.2, fruit.2)
            && A4::fruit_ok(meaning.3, fruit.3)
            && A5::fruit_ok(meaning.4, fruit.4)
            && A6::fruit_ok(meaning.5, fruit.5)
    }

    open spec fn empty(meaning: Self::Meaning) -> ModelOf<Self::Fruit> {
        (
            A1::empty(meaning.0),
            A2::empty(meaning.1),
            A3::empty(meaning.2),
            A4::empty(meaning.3),
            A5::empty(meaning.4),
            A6::empty(meaning.5),
        )
    }

    open spec fn merged(
        meaning: Self::Meaning,
        a: ModelOf<Self::Fruit>,
        b: ModelOf<Self::Fruit>,
    ) -> ModelOf<Self::Fruit> {
        (
            A1::merged(meaning.0, a.0, b.0),
            A2::merged(meaning.1, a.1, b.1),
            A3::merged(meaning.2, a.2, b.2),
            A4::merged(meaning.3, a.3, b.3),
            A5::merged(meaning.4, a.4, b.4),
            A6::merged(meaning.5, a.5, b.5),
        )
    }

    open spec fn contributions(meaning: Self::Meaning, doc: DocId, score: ScoreBits) -> Seq<
        ModelOf<Self::Fruit>,
    > {
        A1::contributions(meaning.0, doc, score).map_values(
                |d: ModelOf<A1::Fruit>| (
                    d,
                    A2::empty(meaning.1),
                    A3::empty(meaning.2),
                    A4::empty(meaning.3),
                    A5::empty(meaning.4),
                    A6::empty(meaning.5),
                ),
            )
            + A2::contributions(meaning.1, doc, score).map_values(
                |d: ModelOf<A2::Fruit>| (
                    A1::empty(meaning.0),
                    d,
                    A3::empty(meaning.2),
                    A4::empty(meaning.3),
                    A5::empty(meaning.4),
                    A6::empty(meaning.5),
                ),
            )
            + A3::contributions(meaning.2, doc, score).map_values(
                |d: ModelOf<A3::Fruit>| (
                    A1::empty(meaning.0),
                    A2::empty(meaning.1),
                    d,
                    A4::empty(meaning.3),
                    A5::empty(meaning.4),
                    A6::empty(meaning.5),
                ),
            )
            + A4::contributions(meaning.3, doc, score).map_values(
                |d: ModelOf<A4::Fruit>| (
                    A1::empty(meaning.0),
                    A2::empty(meaning.1),
                    A3::empty(meaning.2),
                    d,
                    A5::empty(meaning.4),
                    A6::empty(meaning.5),
                ),
            )
            + A5::contributions(meaning.4, doc, score).map_values(
                |d: ModelOf<A5::Fruit>| (
                    A1::empty(meaning.0),
                    A2::empty(meaning.1),
                    A3::empty(meaning.2),
                    A4::empty(meaning.3),
                    d,
                    A6::empty(meaning.5),
                ),
            )
            + A6::contributions(meaning.5, doc, score).map_values(
                |d: ModelOf<A6::Fruit>| (
                    A1::empty(meaning.0),
                    A2::empty(meaning.1),
                    A3::empty(meaning.2),
                    A4::empty(meaning.3),
                    A5::empty(meaning.4),
                    d,
                ),
            )
    }

    fn create_fruit(&self) -> (fruit: Self::Fruit) {
        (
            self.0.create_fruit(),
            self.1.create_fruit(),
            self.2.create_fruit(),
            self.3.create_fruit(),
            self.4.create_fruit(),
            self.5.create_fruit(),
        )
    }

    proof fn law_empty(meaning: Self::Meaning, a: ModelOf<Self::Fruit>) {
        A1::law_empty(meaning.0, a.0);
        A2::law_empty(meaning.1, a.1);
        A3::law_empty(meaning.2, a.2);
        A4::law_empty(meaning.3, a.3);
        A5::law_empty(meaning.4, a.4);
        A6::law_empty(meaning.5, a.5);
    }

    fn collect(&mut self, doc: DocId, score: ScoreBits, output: &mut Self::Fruit) {
        let ghost meaning = self.meaning();
        let ghost outer = |a: ModelOf<Self::Fruit>, b: ModelOf<Self::Fruit>|
            Self::merged(meaning, a, b);
        let ghost start = output.model();
        let ghost mut done: Seq<ModelOf<Self::Fruit>> = Seq::empty();
        proof {
            lemma_folded_one(outer, start, start);
            assert forall|c: ModelOf<A1::Fruit>| A1::fruit_ok(meaning.0, c) implies #[trigger]
                A1::merged(meaning.0, c, A1::empty(meaning.0)) == c by {
                A1::law_empty(meaning.0, c);
            }
            assert forall|c: ModelOf<A2::Fruit>| A2::fruit_ok(meaning.1, c) implies #[trigger]
                A2::merged(meaning.1, c, A2::empty(meaning.1)) == c by {
                A2::law_empty(meaning.1, c);
            }
            assert forall|c: ModelOf<A3::Fruit>| A3::fruit_ok(meaning.2, c) implies #[trigger]
                A3::merged(meaning.2, c, A3::empty(meaning.2)) == c by {
                A3::law_empty(meaning.2, c);
            }
            assert forall|c: ModelOf<A4::Fruit>| A4::fruit_ok(meaning.3, c) implies #[trigger]
                A4::merged(meaning.3, c, A4::empty(meaning.3)) == c by {
                A4::law_empty(meaning.3, c);
            }
            assert forall|c: ModelOf<A5::Fruit>| A5::fruit_ok(meaning.4, c) implies #[trigger]
                A5::merged(meaning.4, c, A5::empty(meaning.4)) == c by {
                A5::law_empty(meaning.4, c);
            }
            assert forall|c: ModelOf<A6::Fruit>| A6::fruit_ok(meaning.5, c) implies #[trigger]
                A6::merged(meaning.5, c, A6::empty(meaning.5)) == c by {
                A6::law_empty(meaning.5, c);
            }
        }
        let ghost before = output.model();
        self.0.collect(doc, score, &mut output.0);
        proof {
            let put = |x: ModelOf<A1::Fruit>| (x, before.1, before.2, before.3, before.4, before.5);
            let lift = |d: ModelOf<A1::Fruit>| (
                d,
                A2::empty(meaning.1),
                A3::empty(meaning.2),
                A4::empty(meaning.3),
                A5::empty(meaning.4),
                A6::empty(meaning.5),
            );
            let inner = |a: ModelOf<A1::Fruit>, b: ModelOf<A1::Fruit>|
                A1::merged(meaning.0, a, b);
            let part = A1::contributions(meaning.0, doc, score);
            lemma_folded_through(inner, outer, put, lift, before.0, part);
            assert(put(before.0) == before);
            assert(output.model() == put(folded(inner, before.0, part)));
            lemma_folded_parts(outer, start, done, part.map_values(lift));
            done = done + part.map_values(lift);
        }
        let ghost before = output.model();
        self.1.collect(doc, score, &mut output.1);
        proof {
            let put = |x: ModelOf<A2::Fruit>| (before.0, x, before.2, before.3, before.4, before.5);
            let lift = |d: ModelOf<A2::Fruit>| (
                A1::empty(meaning.0),
                d,
                A3::empty(meaning.2),
                A4::empty(meaning.3),
                A5::empty(meaning.4),
                A6::empty(meaning.5),
            );
            let inner = |a: ModelOf<A2::Fruit>, b: ModelOf<A2::Fruit>|
                A2::merged(meaning.1, a, b);
            let part = A2::contributions(meaning.1, doc, score);
            lemma_folded_through(inner, outer, put, lift, before.1, part);
            assert(put(before.1) == before);
            assert(output.model() == put(folded(inner, before.1, part)));
            lemma_folded_parts(outer, start, done, part.map_values(lift));
            done = done + part.map_values(lift);
        }
        let ghost before = output.model();
        self.2.collect(doc, score, &mut output.2);
        proof {
            let put = |x: ModelOf<A3::Fruit>| (before.0, before.1, x, before.3, before.4, before.5);
            let lift = |d: ModelOf<A3::Fruit>| (
                A1::empty(meaning.0),
                A2::empty(meaning.1),
                d,
                A4::empty(meaning.3),
                A5::empty(meaning.4),
                A6::empty(meaning.5),
            );
            let inner = |a: ModelOf<A3::Fruit>, b: ModelOf<A3::Fruit>|
                A3::merged(meaning.2, a, b);
            let part = A3::contributions(meaning.2, doc, score);
            lemma_folded_through(inner, outer, put, lift, before.2, part);
            assert(put(before.2) == before);
            assert(output.model() == put(folded(inner, before.2, part)));
            lemma_folded_parts(outer, start, done, part.map_values(lift));
            done = done + part.map_values(lift);
        }
        let ghost before = output.model();
        self.3.collect(doc, score, &mut output.3);
        proof {
            let put = |x: ModelOf<A4::Fruit>| (before.0, before.1, before.2, x, before.4, before.5);
            let lift = |d: ModelOf<A4::Fruit>| (
                A1::empty(meaning.0),
                A2::empty(meaning.1),
                A3::empty(meaning.2),
                d,
                A5::empty(meaning.4),
                A6::empty(meaning.5),
            );
            let inner = |a: ModelOf<A4::Fruit>, b: ModelOf<A4::Fruit>|
                A4::merged(meaning.3, a, b);
            let part = A4::contributions(meaning.3, doc, score);
            lemma_folded_through(inner, outer, put, lift, before.3, part);
            assert(put(before.3) == before);
            assert(output.model() == put(folded(inner, before.3, part)));
            lemma_folded_parts(outer, start, done, part.map_values(lift));
            done = done + part.map_values(lift);
        }
        let ghost before = output.model();
        self.4.collect(doc, score, &mut output.4);
        proof {
            let put = |x: ModelOf<A5::Fruit>| (before.0, before.1, before.2, before.3, x, before.5);
            let lift = |d: ModelOf<A5::Fruit>| (
                A1::empty(meaning.0),
                A2::empty(meaning.1),
                A3::empty(meaning.2),
                A4::empty(meaning.3),
                d,
                A6::empty(meaning.5),
            );
            let inner = |a: ModelOf<A5::Fruit>, b: ModelOf<A5::Fruit>|
                A5::merged(meaning.4, a, b);
            let part = A5::contributions(meaning.4, doc, score);
            lemma_folded_through(inner, outer, put, lift, before.4, part);
            assert(put(before.4) == before);
            assert(output.model() == put(folded(inner, before.4, part)));
            lemma_folded_parts(outer, start, done, part.map_values(lift));
            done = done + part.map_values(lift);
        }
        let ghost before = output.model();
        self.5.collect(doc, score, &mut output.5);
        proof {
            let put = |x: ModelOf<A6::Fruit>| (before.0, before.1, before.2, before.3, before.4, x);
            let lift = |d: ModelOf<A6::Fruit>| (
                A1::empty(meaning.0),
                A2::empty(meaning.1),
                A3::empty(meaning.2),
                A4::empty(meaning.3),
                A5::empty(meaning.4),
                d,
            );
            let inner = |a: ModelOf<A6::Fruit>, b: ModelOf<A6::Fruit>|
                A6::merged(meaning.5, a, b);
            let part = A6::contributions(meaning.5, doc, score);
            lemma_folded_through(inner, outer, put, lift, before.5, part);
            assert(put(before.5) == before);
            assert(output.model() == put(folded(inner, before.5, part)));
            lemma_folded_parts(outer, start, done, part.map_values(lift));
            done = done + part.map_values(lift);
        }
        proof {
            assert(done =~= Self::contributions(meaning, doc, score));
        }
    }
}

impl<
    A1: FruitModel,
    A2: FruitModel,
    A3: FruitModel,
    A4: FruitModel,
    A5: FruitModel,
    A6: FruitModel,
    A7: FruitModel,
> FruitModel for (A1, A2, A3, A4, A5, A6, A7) {
    type Model = (A1::Model, A2::Model, A3::Model, A4::Model, A5::Model, A6::Model, A7::Model);

    open spec fn model(&self) -> Self::Model {
        (
            self.0.model(),
            self.1.model(),
            self.2.model(),
            self.3.model(),
            self.4.model(),
            self.5.model(),
            self.6.model(),
        )
    }
}

impl<
    A1: Agg,
    A2: Agg,
    A3: Agg,
    A4: Agg,
    A5: Agg,
    A6: Agg,
    A7: Agg,
> Agg for (A1, A2, A3, A4, A5, A6, A7) {
    type Fruit = (A1::Fruit, A2::Fruit, A3::Fruit, A4::Fruit, A5::Fruit, A6::Fruit, A7::Fruit);

    type Child = (A1::Child, A2::Child, A3::Child, A4::Child, A5::Child, A6::Child, A7::Child);

    open spec fn leaf_scoring(&self) -> Seq<bool> {
        self.0.leaf_scoring()
            + self.1.leaf_scoring()
            + self.2.leaf_scoring()
            + self.3.leaf_scoring()
            + self.4.leaf_scoring()
            + self.5.leaf_scoring()
            + self.6.leaf_scoring()
    }

    open spec fn inv(&self) -> bool {
        self.0.inv()
            && self.1.inv()
            && self.2.inv()
            && self.3.inv()
            && self.4.inv()
            && self.5.inv()
            && self.6.inv()
    }

    open spec fn steady(&self) -> bool {
        self.0.steady()
            && self.1.steady()
            && self.2.steady()
            && self.3.steady()
            && self.4.steady()
            && self.5.steady()
            && self.6.steady()
    }

    open spec fn runs_on(&self, searcher: tantivy::Searcher) -> bool {
        self.0.runs_on(searcher)
            && self.1.runs_on(searcher)
            && self.2.runs_on(searcher)
            && self.3.runs_on(searcher)
            && self.4.runs_on(searcher)
            && self.5.runs_on(searcher)
            && self.6.runs_on(searcher)
    }

    open spec fn prepare_error(&self, searcher: tantivy::Searcher) -> Option<AggError> {
        if self.0.prepare_error(searcher) is Some {
            self.0.prepare_error(searcher)
        } else if self.1.prepare_error(searcher) is Some {
            self.1.prepare_error(searcher)
        } else if self.2.prepare_error(searcher) is Some {
            self.2.prepare_error(searcher)
        } else if self.3.prepare_error(searcher) is Some {
            self.3.prepare_error(searcher)
        } else if self.4.prepare_error(searcher) is Some {
            self.4.prepare_error(searcher)
        } else if self.5.prepare_error(searcher) is Some {
            self.5.prepare_error(searcher)
        } else {
            self.6.prepare_error(searcher)
        }
    }

    open spec fn prepared_by(&self, searcher: tantivy::Searcher, prepared: Self::Child) -> bool {
        self.0.prepared_by(searcher, prepared.0)
            && self.1.prepared_by(searcher, prepared.1)
            && self.2.prepared_by(searcher, prepared.2)
            && self.3.prepared_by(searcher, prepared.3)
            && self.4.prepared_by(searcher, prepared.4)
            && self.5.prepared_by(searcher, prepared.5)
            && self.6.prepared_by(searcher, prepared.6)
    }

    open spec fn prepares(&self, prepared: Self::Child) -> bool {
        self.0.prepares(prepared.0)
            && self.1.prepares(prepared.1)
            && self.2.prepares(prepared.2)
            && self.3.prepares(prepared.3)
            && self.4.prepares(prepared.4)
            && self.5.prepares(prepared.5)
            && self.6.prepares(prepared.6)
    }

    fn prepare(&self, searcher: &tantivy::Searcher) -> (r: Result<Self::Child, AggError>) {
        let prepared0 = match self.0.prepare(searcher) {
            Ok(prepared) => prepared,
            Err(e) => {
                return Err(e);
            },
        };
        let prepared1 = match self.1.prepare(searcher) {
            Ok(prepared) => prepared,
            Err(e) => {
                return Err(e);
            },
        };
        let prepared2 = match self.2.prepare(searcher) {
            Ok(prepared) => prepared,
            Err(e) => {
                return Err(e);
            },
        };
        let prepared3 = match self.3.prepare(searcher) {
            Ok(prepared) => prepared,
            Err(e) => {
                return Err(e);
            },
        };
        let prepared4 = match self.4.prepare(searcher) {
            Ok(prepared) => prepared,
            Err(e) => {
                return Err(e);
            },
        };
        let prepared5 = match self.5.prepare(searcher) {
            Ok(prepared) => prepared,
            Err(e) => {
                return Err(e);
            },
        };
        let prepared6 = match self.6.prepare(searcher) {
            Ok(prepared) => prepared,
            Err(e) => {
                return Err(e);
            },
        };
        Ok((prepared0, prepared1, prepared2, prepared3, prepared4, prepared5, prepared6))
    }

    fn requires_scoring(&self) -> (scoring: bool) {
        let scoring0 = self.0.requires_scoring();
        let scoring1 = self.1.requires_scoring();
        let scoring2 = self.2.requires_scoring();
        let scoring3 = self.3.requires_scoring();
        let scoring4 = self.4.requires_scoring();
        let scoring5 = self.5.requires_scoring();
        let scoring6 = self.6.requires_scoring();
        proof {
            let mut seen = self.0.leaf_scoring();
            lemma_scoring_joins(seen, self.1.leaf_scoring());
            seen = seen + self.1.leaf_scoring();
            lemma_scoring_joins(seen, self.2.leaf_scoring());
            seen = seen + self.2.leaf_scoring();
            lemma_scoring_joins(seen, self.3.leaf_scoring());
            seen = seen + self.3.leaf_scoring();
            lemma_scoring_joins(seen, self.4.leaf_scoring());
            seen = seen + self.4.leaf_scoring();
            lemma_scoring_joins(seen, self.5.leaf_scoring());
            seen = seen + self.5.leaf_scoring();
            lemma_scoring_joins(seen, self.6.leaf_scoring());
            seen = seen + self.6.leaf_scoring();
        }
        scoring0 || scoring1 || scoring2 || scoring3 || scoring4 || scoring5 || scoring6
    }
}

impl<
    A1: PreparedAgg,
    A2: PreparedAgg,
    A3: PreparedAgg,
    A4: PreparedAgg,
    A5: PreparedAgg,
    A6: PreparedAgg,
    A7: PreparedAgg,
> PreparedAgg for (A1, A2, A3, A4, A5, A6, A7) {
    type Fruit = (A1::Fruit, A2::Fruit, A3::Fruit, A4::Fruit, A5::Fruit, A6::Fruit, A7::Fruit);

    type Child = (A1::Child, A2::Child, A3::Child, A4::Child, A5::Child, A6::Child, A7::Child);

    open spec fn inv(&self) -> bool {
        self.0.inv()
            && self.1.inv()
            && self.2.inv()
            && self.3.inv()
            && self.4.inv()
            && self.5.inv()
            && self.6.inv()
    }

    open spec fn fruit_ok(&self, fruit: ModelOf<Self::Fruit>) -> bool {
        self.0.fruit_ok(fruit.0)
            && self.1.fruit_ok(fruit.1)
            && self.2.fruit_ok(fruit.2)
            && self.3.fruit_ok(fruit.3)
            && self.4.fruit_ok(fruit.4)
            && self.5.fruit_ok(fruit.5)
            && self.6.fruit_ok(fruit.6)
    }

    open spec fn empty(&self) -> ModelOf<Self::Fruit> {
        (
            self.0.empty(),
            self.1.empty(),
            self.2.empty(),
            self.3.empty(),
            self.4.empty(),
            self.5.empty(),
            self.6.empty(),
        )
    }

    open spec fn merged(&self, a: ModelOf<Self::Fruit>, b: ModelOf<Self::Fruit>) -> ModelOf<Self::Fruit>
    {
        (
            self.0.merged(a.0, b.0),
            self.1.merged(a.1, b.1),
            self.2.merged(a.2, b.2),
            self.3.merged(a.3, b.3),
            self.4.merged(a.4, b.4),
            self.5.merged(a.5, b.5),
            self.6.merged(a.6, b.6),
        )
    }

    open spec fn fits(&self, a: ModelOf<Self::Fruit>, b: ModelOf<Self::Fruit>) -> bool {
        self.0.fits(a.0, b.0)
            && self.1.fits(a.1, b.1)
            && self.2.fits(a.2, b.2)
            && self.3.fits(a.3, b.3)
            && self.4.fits(a.4, b.4)
            && self.5.fits(a.5, b.5)
            && self.6.fits(a.6, b.6)
    }

    open spec fn spawns(&self, meaning: <Self::Child as SegmentAgg>::Meaning) -> bool {
        self.0.spawns(meaning.0)
            && self.1.spawns(meaning.1)
            && self.2.spawns(meaning.2)
            && self.3.spawns(meaning.3)
            && self.4.spawns(meaning.4)
            && self.5.spawns(meaning.5)
            && self.6.spawns(meaning.6)
    }

    open spec fn runs_on(&self, reader: tantivy::SegmentReader) -> bool {
        self.0.runs_on(reader)
            && self.1.runs_on(reader)
            && self.2.runs_on(reader)
            && self.3.runs_on(reader)
            && self.4.runs_on(reader)
            && self.5.runs_on(reader)
            && self.6.runs_on(reader)
    }

    open spec fn meaning_on(&self, ctx: AggSegmentContext) -> Result<
        <Self::Child as SegmentAgg>::Meaning,
        AggError,
    > {
        if self.0.meaning_on(ctx) is Err {
            Err(self.0.meaning_on(ctx)->Err_0)
        } else if self.1.meaning_on(ctx) is Err {
            Err(self.1.meaning_on(ctx)->Err_0)
        } else if self.2.meaning_on(ctx) is Err {
            Err(self.2.meaning_on(ctx)->Err_0)
        } else if self.3.meaning_on(ctx) is Err {
            Err(self.3.meaning_on(ctx)->Err_0)
        } else if self.4.meaning_on(ctx) is Err {
            Err(self.4.meaning_on(ctx)->Err_0)
        } else if self.5.meaning_on(ctx) is Err {
            Err(self.5.meaning_on(ctx)->Err_0)
        } else if self.6.meaning_on(ctx) is Err {
            Err(self.6.meaning_on(ctx)->Err_0)
        } else {
            Ok((
                self.0.meaning_on(ctx)->Ok_0,
                self.1.meaning_on(ctx)->Ok_0,
                self.2.meaning_on(ctx)->Ok_0,
                self.3.meaning_on(ctx)->Ok_0,
                self.4.meaning_on(ctx)->Ok_0,
                self.5.meaning_on(ctx)->Ok_0,
                self.6.meaning_on(ctx)->Ok_0,
            ))
        }
    }

    open spec fn steady(&self) -> bool {
        self.0.steady()
            && self.1.steady()
            && self.2.steady()
            && self.3.steady()
            && self.4.steady()
            && self.5.steady()
            && self.6.steady()
    }

    fn create_fruit(&self) -> (fruit: Self::Fruit) {
        (
            self.0.create_fruit(),
            self.1.create_fruit(),
            self.2.create_fruit(),
            self.3.create_fruit(),
            self.4.create_fruit(),
            self.5.create_fruit(),
            self.6.create_fruit(),
        )
    }

    fn for_segment(&self, ctx: &AggSegmentContext) -> (r: Result<Self::Child, AggError>) {
        let child0 = match self.0.for_segment(ctx) {
            Ok(child) => child,
            Err(e) => {
                return Err(e);
            },
        };
        let child1 = match self.1.for_segment(ctx) {
            Ok(child) => child,
            Err(e) => {
                return Err(e);
            },
        };
        let child2 = match self.2.for_segment(ctx) {
            Ok(child) => child,
            Err(e) => {
                return Err(e);
            },
        };
        let child3 = match self.3.for_segment(ctx) {
            Ok(child) => child,
            Err(e) => {
                return Err(e);
            },
        };
        let child4 = match self.4.for_segment(ctx) {
            Ok(child) => child,
            Err(e) => {
                return Err(e);
            },
        };
        let child5 = match self.5.for_segment(ctx) {
            Ok(child) => child,
            Err(e) => {
                return Err(e);
            },
        };
        let child6 = match self.6.for_segment(ctx) {
            Ok(child) => child,
            Err(e) => {
                return Err(e);
            },
        };
        Ok((child0, child1, child2, child3, child4, child5, child6))
    }

    fn merge(&self, acc: &mut Self::Fruit, fruit: Self::Fruit) {
        let (fruit0, fruit1, fruit2, fruit3, fruit4, fruit5, fruit6) = fruit;
        self.0.merge(&mut acc.0, fruit0);
        self.1.merge(&mut acc.1, fruit1);
        self.2.merge(&mut acc.2, fruit2);
        self.3.merge(&mut acc.3, fruit3);
        self.4.merge(&mut acc.4, fruit4);
        self.5.merge(&mut acc.5, fruit5);
        self.6.merge(&mut acc.6, fruit6);
    }

    proof fn law_identity(&self, a: ModelOf<Self::Fruit>) {
        self.0.law_identity(a.0);
        self.1.law_identity(a.1);
        self.2.law_identity(a.2);
        self.3.law_identity(a.3);
        self.4.law_identity(a.4);
        self.5.law_identity(a.5);
        self.6.law_identity(a.6);
    }

    proof fn law_commutative(&self, a: ModelOf<Self::Fruit>, b: ModelOf<Self::Fruit>) {
        self.0.law_commutative(a.0, b.0);
        self.1.law_commutative(a.1, b.1);
        self.2.law_commutative(a.2, b.2);
        self.3.law_commutative(a.3, b.3);
        self.4.law_commutative(a.4, b.4);
        self.5.law_commutative(a.5, b.5);
        self.6.law_commutative(a.6, b.6);
    }

    proof fn law_associative(
        &self,
        a: ModelOf<Self::Fruit>,
        b: ModelOf<Self::Fruit>,
        c: ModelOf<Self::Fruit>,
    ) {
        self.0.law_associative(a.0, b.0, c.0);
        self.1.law_associative(a.1, b.1, c.1);
        self.2.law_associative(a.2, b.2, c.2);
        self.3.law_associative(a.3, b.3, c.3);
        self.4.law_associative(a.4, b.4, c.4);
        self.5.law_associative(a.5, b.5, c.5);
        self.6.law_associative(a.6, b.6, c.6);
    }

    proof fn law_child(&self, meaning: <Self::Child as SegmentAgg>::Meaning) {
        self.0.law_child(meaning.0);
        self.0.law_identity(self.0.empty());
        self.1.law_child(meaning.1);
        self.1.law_identity(self.1.empty());
        self.2.law_child(meaning.2);
        self.2.law_identity(self.2.empty());
        self.3.law_child(meaning.3);
        self.3.law_identity(self.3.empty());
        self.4.law_child(meaning.4);
        self.4.law_identity(self.4.empty());
        self.5.law_child(meaning.5);
        self.5.law_identity(self.5.empty());
        self.6.law_child(meaning.6);
        self.6.law_identity(self.6.empty());
        assert forall|a: ModelOf<Self::Fruit>, b: ModelOf<Self::Fruit>| #[trigger]
            Self::Child::merged(meaning, a, b) == self.merged(a, b) by {
            assert(A1::Child::merged(meaning.0, a.0, b.0) == self.0.merged(a.0, b.0));
            assert(A2::Child::merged(meaning.1, a.1, b.1) == self.1.merged(a.1, b.1));
            assert(A3::Child::merged(meaning.2, a.2, b.2) == self.2.merged(a.2, b.2));
            assert(A4::Child::merged(meaning.3, a.3, b.3) == self.3.merged(a.3, b.3));
            assert(A5::Child::merged(meaning.4, a.4, b.4) == self.4.merged(a.4, b.4));
            assert(A6::Child::merged(meaning.5, a.5, b.5) == self.5.merged(a.5, b.5));
            assert(A7::Child::merged(meaning.6, a.6, b.6) == self.6.merged(a.6, b.6));
        }
        assert forall|a: ModelOf<Self::Fruit>| #[trigger]
            Self::Child::fruit_ok(meaning, a) == self.fruit_ok(a) by {
            assert(A1::Child::fruit_ok(meaning.0, a.0) == self.0.fruit_ok(a.0));
            assert(A2::Child::fruit_ok(meaning.1, a.1) == self.1.fruit_ok(a.1));
            assert(A3::Child::fruit_ok(meaning.2, a.2) == self.2.fruit_ok(a.2));
            assert(A4::Child::fruit_ok(meaning.3, a.3) == self.3.fruit_ok(a.3));
            assert(A5::Child::fruit_ok(meaning.4, a.4) == self.4.fruit_ok(a.4));
            assert(A6::Child::fruit_ok(meaning.5, a.5) == self.5.fruit_ok(a.5));
            assert(A7::Child::fruit_ok(meaning.6, a.6) == self.6.fruit_ok(a.6));
        }
        assert forall|doc: DocId, score: ScoreBits, i: int|
            0 <= i < Self::Child::contributions(meaning, doc, score).len() implies self.fruit_ok(
            #[trigger] Self::Child::contributions(meaning, doc, score)[i],
        ) by {
            let ok = |f: ModelOf<Self::Fruit>| self.fruit_ok(f);
            let part0 = A1::Child::contributions(meaning.0, doc, score).map_values(
                |d: ModelOf<A1::Fruit>| (
                    d,
                    A2::Child::empty(meaning.1),
                    A3::Child::empty(meaning.2),
                    A4::Child::empty(meaning.3),
                    A5::Child::empty(meaning.4),
                    A6::Child::empty(meaning.5),
                    A7::Child::empty(meaning.6),
                ),
            );
            assert forall|j: int| 0 <= j < part0.len() implies ok(#[trigger] part0[j]) by {
                assert(self.0.fruit_ok(A1::Child::contributions(meaning.0, doc, score)[j]));
            }
            let part1 = A2::Child::contributions(meaning.1, doc, score).map_values(
                |d: ModelOf<A2::Fruit>| (
                    A1::Child::empty(meaning.0),
                    d,
                    A3::Child::empty(meaning.2),
                    A4::Child::empty(meaning.3),
                    A5::Child::empty(meaning.4),
                    A6::Child::empty(meaning.5),
                    A7::Child::empty(meaning.6),
                ),
            );
            assert forall|j: int| 0 <= j < part1.len() implies ok(#[trigger] part1[j]) by {
                assert(self.1.fruit_ok(A2::Child::contributions(meaning.1, doc, score)[j]));
            }
            let part2 = A3::Child::contributions(meaning.2, doc, score).map_values(
                |d: ModelOf<A3::Fruit>| (
                    A1::Child::empty(meaning.0),
                    A2::Child::empty(meaning.1),
                    d,
                    A4::Child::empty(meaning.3),
                    A5::Child::empty(meaning.4),
                    A6::Child::empty(meaning.5),
                    A7::Child::empty(meaning.6),
                ),
            );
            assert forall|j: int| 0 <= j < part2.len() implies ok(#[trigger] part2[j]) by {
                assert(self.2.fruit_ok(A3::Child::contributions(meaning.2, doc, score)[j]));
            }
            let part3 = A4::Child::contributions(meaning.3, doc, score).map_values(
                |d: ModelOf<A4::Fruit>| (
                    A1::Child::empty(meaning.0),
                    A2::Child::empty(meaning.1),
                    A3::Child::empty(meaning.2),
                    d,
                    A5::Child::empty(meaning.4),
                    A6::Child::empty(meaning.5),
                    A7::Child::empty(meaning.6),
                ),
            );
            assert forall|j: int| 0 <= j < part3.len() implies ok(#[trigger] part3[j]) by {
                assert(self.3.fruit_ok(A4::Child::contributions(meaning.3, doc, score)[j]));
            }
            let part4 = A5::Child::contributions(meaning.4, doc, score).map_values(
                |d: ModelOf<A5::Fruit>| (
                    A1::Child::empty(meaning.0),
                    A2::Child::empty(meaning.1),
                    A3::Child::empty(meaning.2),
                    A4::Child::empty(meaning.3),
                    d,
                    A6::Child::empty(meaning.5),
                    A7::Child::empty(meaning.6),
                ),
            );
            assert forall|j: int| 0 <= j < part4.len() implies ok(#[trigger] part4[j]) by {
                assert(self.4.fruit_ok(A5::Child::contributions(meaning.4, doc, score)[j]));
            }
            let part5 = A6::Child::contributions(meaning.5, doc, score).map_values(
                |d: ModelOf<A6::Fruit>| (
                    A1::Child::empty(meaning.0),
                    A2::Child::empty(meaning.1),
                    A3::Child::empty(meaning.2),
                    A4::Child::empty(meaning.3),
                    A5::Child::empty(meaning.4),
                    d,
                    A7::Child::empty(meaning.6),
                ),
            );
            assert forall|j: int| 0 <= j < part5.len() implies ok(#[trigger] part5[j]) by {
                assert(self.5.fruit_ok(A6::Child::contributions(meaning.5, doc, score)[j]));
            }
            let part6 = A7::Child::contributions(meaning.6, doc, score).map_values(
                |d: ModelOf<A7::Fruit>| (
                    A1::Child::empty(meaning.0),
                    A2::Child::empty(meaning.1),
                    A3::Child::empty(meaning.2),
                    A4::Child::empty(meaning.3),
                    A5::Child::empty(meaning.4),
                    A6::Child::empty(meaning.5),
                    d,
                ),
            );
            assert forall|j: int| 0 <= j < part6.len() implies ok(#[trigger] part6[j]) by {
                assert(self.6.fruit_ok(A7::Child::contributions(meaning.6, doc, score)[j]));
            }
            lemma_all_joined(ok, part0, part1);
            lemma_all_joined(ok, part0 + part1, part2);
            lemma_all_joined(ok, part0 + part1 + part2, part3);
            lemma_all_joined(ok, part0 + part1 + part2 + part3, part4);
            lemma_all_joined(ok, part0 + part1 + part2 + part3 + part4, part5);
            lemma_all_joined(ok, part0 + part1 + part2 + part3 + part4 + part5, part6);
        }
    }
}

impl<
    A1: SegmentAgg,
    A2: SegmentAgg,
    A3: SegmentAgg,
    A4: SegmentAgg,
    A5: SegmentAgg,
    A6: SegmentAgg,
    A7: SegmentAgg,
> SegmentAgg for (A1, A2, A3, A4, A5, A6, A7) {
    type Fruit = (A1::Fruit, A2::Fruit, A3::Fruit, A4::Fruit, A5::Fruit, A6::Fruit, A7::Fruit);

    type Meaning = (
        A1::Meaning,
        A2::Meaning,
        A3::Meaning,
        A4::Meaning,
        A5::Meaning,
        A6::Meaning,
        A7::Meaning,
    );

    open spec fn meaning(&self) -> Self::Meaning {
        (
            self.0.meaning(),
            self.1.meaning(),
            self.2.meaning(),
            self.3.meaning(),
            self.4.meaning(),
            self.5.meaning(),
            self.6.meaning(),
        )
    }

    open spec fn inv(&self) -> bool {
        self.0.inv()
            && self.1.inv()
            && self.2.inv()
            && self.3.inv()
            && self.4.inv()
            && self.5.inv()
            && self.6.inv()
    }

    open spec fn frontier(&self) -> nat {
        let front = self.0.frontier();
        let front = highest(front, self.1.frontier());
        let front = highest(front, self.2.frontier());
        let front = highest(front, self.3.frontier());
        let front = highest(front, self.4.frontier());
        let front = highest(front, self.5.frontier());
        let front = highest(front, self.6.frontier());
        front
    }

    open spec fn doc_limit(meaning: Self::Meaning) -> nat {
        let limit = A1::doc_limit(meaning.0);
        let limit = lowest(limit, A2::doc_limit(meaning.1));
        let limit = lowest(limit, A3::doc_limit(meaning.2));
        let limit = lowest(limit, A4::doc_limit(meaning.3));
        let limit = lowest(limit, A5::doc_limit(meaning.4));
        let limit = lowest(limit, A6::doc_limit(meaning.5));
        let limit = lowest(limit, A7::doc_limit(meaning.6));
        limit
    }

    open spec fn fruit_ok(meaning: Self::Meaning, fruit: ModelOf<Self::Fruit>) -> bool {
        A1::fruit_ok(meaning.0, fruit.0)
            && A2::fruit_ok(meaning.1, fruit.1)
            && A3::fruit_ok(meaning.2, fruit.2)
            && A4::fruit_ok(meaning.3, fruit.3)
            && A5::fruit_ok(meaning.4, fruit.4)
            && A6::fruit_ok(meaning.5, fruit.5)
            && A7::fruit_ok(meaning.6, fruit.6)
    }

    open spec fn empty(meaning: Self::Meaning) -> ModelOf<Self::Fruit> {
        (
            A1::empty(meaning.0),
            A2::empty(meaning.1),
            A3::empty(meaning.2),
            A4::empty(meaning.3),
            A5::empty(meaning.4),
            A6::empty(meaning.5),
            A7::empty(meaning.6),
        )
    }

    open spec fn merged(
        meaning: Self::Meaning,
        a: ModelOf<Self::Fruit>,
        b: ModelOf<Self::Fruit>,
    ) -> ModelOf<Self::Fruit> {
        (
            A1::merged(meaning.0, a.0, b.0),
            A2::merged(meaning.1, a.1, b.1),
            A3::merged(meaning.2, a.2, b.2),
            A4::merged(meaning.3, a.3, b.3),
            A5::merged(meaning.4, a.4, b.4),
            A6::merged(meaning.5, a.5, b.5),
            A7::merged(meaning.6, a.6, b.6),
        )
    }

    open spec fn contributions(meaning: Self::Meaning, doc: DocId, score: ScoreBits) -> Seq<
        ModelOf<Self::Fruit>,
    > {
        A1::contributions(meaning.0, doc, score).map_values(
                |d: ModelOf<A1::Fruit>| (
                    d,
                    A2::empty(meaning.1),
                    A3::empty(meaning.2),
                    A4::empty(meaning.3),
                    A5::empty(meaning.4),
                    A6::empty(meaning.5),
                    A7::empty(meaning.6),
                ),
            )
            + A2::contributions(meaning.1, doc, score).map_values(
                |d: ModelOf<A2::Fruit>| (
                    A1::empty(meaning.0),
                    d,
                    A3::empty(meaning.2),
                    A4::empty(meaning.3),
                    A5::empty(meaning.4),
                    A6::empty(meaning.5),
                    A7::empty(meaning.6),
                ),
            )
            + A3::contributions(meaning.2, doc, score).map_values(
                |d: ModelOf<A3::Fruit>| (
                    A1::empty(meaning.0),
                    A2::empty(meaning.1),
                    d,
                    A4::empty(meaning.3),
                    A5::empty(meaning.4),
                    A6::empty(meaning.5),
                    A7::empty(meaning.6),
                ),
            )
            + A4::contributions(meaning.3, doc, score).map_values(
                |d: ModelOf<A4::Fruit>| (
                    A1::empty(meaning.0),
                    A2::empty(meaning.1),
                    A3::empty(meaning.2),
                    d,
                    A5::empty(meaning.4),
                    A6::empty(meaning.5),
                    A7::empty(meaning.6),
                ),
            )
            + A5::contributions(meaning.4, doc, score).map_values(
                |d: ModelOf<A5::Fruit>| (
                    A1::empty(meaning.0),
                    A2::empty(meaning.1),
                    A3::empty(meaning.2),
                    A4::empty(meaning.3),
                    d,
                    A6::empty(meaning.5),
                    A7::empty(meaning.6),
                ),
            )
            + A6::contributions(meaning.5, doc, score).map_values(
                |d: ModelOf<A6::Fruit>| (
                    A1::empty(meaning.0),
                    A2::empty(meaning.1),
                    A3::empty(meaning.2),
                    A4::empty(meaning.3),
                    A5::empty(meaning.4),
                    d,
                    A7::empty(meaning.6),
                ),
            )
            + A7::contributions(meaning.6, doc, score).map_values(
                |d: ModelOf<A7::Fruit>| (
                    A1::empty(meaning.0),
                    A2::empty(meaning.1),
                    A3::empty(meaning.2),
                    A4::empty(meaning.3),
                    A5::empty(meaning.4),
                    A6::empty(meaning.5),
                    d,
                ),
            )
    }

    fn create_fruit(&self) -> (fruit: Self::Fruit) {
        (
            self.0.create_fruit(),
            self.1.create_fruit(),
            self.2.create_fruit(),
            self.3.create_fruit(),
            self.4.create_fruit(),
            self.5.create_fruit(),
            self.6.create_fruit(),
        )
    }

    proof fn law_empty(meaning: Self::Meaning, a: ModelOf<Self::Fruit>) {
        A1::law_empty(meaning.0, a.0);
        A2::law_empty(meaning.1, a.1);
        A3::law_empty(meaning.2, a.2);
        A4::law_empty(meaning.3, a.3);
        A5::law_empty(meaning.4, a.4);
        A6::law_empty(meaning.5, a.5);
        A7::law_empty(meaning.6, a.6);
    }

    fn collect(&mut self, doc: DocId, score: ScoreBits, output: &mut Self::Fruit) {
        let ghost meaning = self.meaning();
        let ghost outer = |a: ModelOf<Self::Fruit>, b: ModelOf<Self::Fruit>|
            Self::merged(meaning, a, b);
        let ghost start = output.model();
        let ghost mut done: Seq<ModelOf<Self::Fruit>> = Seq::empty();
        proof {
            lemma_folded_one(outer, start, start);
            assert forall|c: ModelOf<A1::Fruit>| A1::fruit_ok(meaning.0, c) implies #[trigger]
                A1::merged(meaning.0, c, A1::empty(meaning.0)) == c by {
                A1::law_empty(meaning.0, c);
            }
            assert forall|c: ModelOf<A2::Fruit>| A2::fruit_ok(meaning.1, c) implies #[trigger]
                A2::merged(meaning.1, c, A2::empty(meaning.1)) == c by {
                A2::law_empty(meaning.1, c);
            }
            assert forall|c: ModelOf<A3::Fruit>| A3::fruit_ok(meaning.2, c) implies #[trigger]
                A3::merged(meaning.2, c, A3::empty(meaning.2)) == c by {
                A3::law_empty(meaning.2, c);
            }
            assert forall|c: ModelOf<A4::Fruit>| A4::fruit_ok(meaning.3, c) implies #[trigger]
                A4::merged(meaning.3, c, A4::empty(meaning.3)) == c by {
                A4::law_empty(meaning.3, c);
            }
            assert forall|c: ModelOf<A5::Fruit>| A5::fruit_ok(meaning.4, c) implies #[trigger]
                A5::merged(meaning.4, c, A5::empty(meaning.4)) == c by {
                A5::law_empty(meaning.4, c);
            }
            assert forall|c: ModelOf<A6::Fruit>| A6::fruit_ok(meaning.5, c) implies #[trigger]
                A6::merged(meaning.5, c, A6::empty(meaning.5)) == c by {
                A6::law_empty(meaning.5, c);
            }
            assert forall|c: ModelOf<A7::Fruit>| A7::fruit_ok(meaning.6, c) implies #[trigger]
                A7::merged(meaning.6, c, A7::empty(meaning.6)) == c by {
                A7::law_empty(meaning.6, c);
            }
        }
        let ghost before = output.model();
        self.0.collect(doc, score, &mut output.0);
        proof {
            let put = |x: ModelOf<A1::Fruit>| (
                x,
                before.1,
                before.2,
                before.3,
                before.4,
                before.5,
                before.6,
            );
            let lift = |d: ModelOf<A1::Fruit>| (
                d,
                A2::empty(meaning.1),
                A3::empty(meaning.2),
                A4::empty(meaning.3),
                A5::empty(meaning.4),
                A6::empty(meaning.5),
                A7::empty(meaning.6),
            );
            let inner = |a: ModelOf<A1::Fruit>, b: ModelOf<A1::Fruit>|
                A1::merged(meaning.0, a, b);
            let part = A1::contributions(meaning.0, doc, score);
            lemma_folded_through(inner, outer, put, lift, before.0, part);
            assert(put(before.0) == before);
            assert(output.model() == put(folded(inner, before.0, part)));
            lemma_folded_parts(outer, start, done, part.map_values(lift));
            done = done + part.map_values(lift);
        }
        let ghost before = output.model();
        self.1.collect(doc, score, &mut output.1);
        proof {
            let put = |x: ModelOf<A2::Fruit>| (
                before.0,
                x,
                before.2,
                before.3,
                before.4,
                before.5,
                before.6,
            );
            let lift = |d: ModelOf<A2::Fruit>| (
                A1::empty(meaning.0),
                d,
                A3::empty(meaning.2),
                A4::empty(meaning.3),
                A5::empty(meaning.4),
                A6::empty(meaning.5),
                A7::empty(meaning.6),
            );
            let inner = |a: ModelOf<A2::Fruit>, b: ModelOf<A2::Fruit>|
                A2::merged(meaning.1, a, b);
            let part = A2::contributions(meaning.1, doc, score);
            lemma_folded_through(inner, outer, put, lift, before.1, part);
            assert(put(before.1) == before);
            assert(output.model() == put(folded(inner, before.1, part)));
            lemma_folded_parts(outer, start, done, part.map_values(lift));
            done = done + part.map_values(lift);
        }
        let ghost before = output.model();
        self.2.collect(doc, score, &mut output.2);
        proof {
            let put = |x: ModelOf<A3::Fruit>| (
                before.0,
                before.1,
                x,
                before.3,
                before.4,
                before.5,
                before.6,
            );
            let lift = |d: ModelOf<A3::Fruit>| (
                A1::empty(meaning.0),
                A2::empty(meaning.1),
                d,
                A4::empty(meaning.3),
                A5::empty(meaning.4),
                A6::empty(meaning.5),
                A7::empty(meaning.6),
            );
            let inner = |a: ModelOf<A3::Fruit>, b: ModelOf<A3::Fruit>|
                A3::merged(meaning.2, a, b);
            let part = A3::contributions(meaning.2, doc, score);
            lemma_folded_through(inner, outer, put, lift, before.2, part);
            assert(put(before.2) == before);
            assert(output.model() == put(folded(inner, before.2, part)));
            lemma_folded_parts(outer, start, done, part.map_values(lift));
            done = done + part.map_values(lift);
        }
        let ghost before = output.model();
        self.3.collect(doc, score, &mut output.3);
        proof {
            let put = |x: ModelOf<A4::Fruit>| (
                before.0,
                before.1,
                before.2,
                x,
                before.4,
                before.5,
                before.6,
            );
            let lift = |d: ModelOf<A4::Fruit>| (
                A1::empty(meaning.0),
                A2::empty(meaning.1),
                A3::empty(meaning.2),
                d,
                A5::empty(meaning.4),
                A6::empty(meaning.5),
                A7::empty(meaning.6),
            );
            let inner = |a: ModelOf<A4::Fruit>, b: ModelOf<A4::Fruit>|
                A4::merged(meaning.3, a, b);
            let part = A4::contributions(meaning.3, doc, score);
            lemma_folded_through(inner, outer, put, lift, before.3, part);
            assert(put(before.3) == before);
            assert(output.model() == put(folded(inner, before.3, part)));
            lemma_folded_parts(outer, start, done, part.map_values(lift));
            done = done + part.map_values(lift);
        }
        let ghost before = output.model();
        self.4.collect(doc, score, &mut output.4);
        proof {
            let put = |x: ModelOf<A5::Fruit>| (
                before.0,
                before.1,
                before.2,
                before.3,
                x,
                before.5,
                before.6,
            );
            let lift = |d: ModelOf<A5::Fruit>| (
                A1::empty(meaning.0),
                A2::empty(meaning.1),
                A3::empty(meaning.2),
                A4::empty(meaning.3),
                d,
                A6::empty(meaning.5),
                A7::empty(meaning.6),
            );
            let inner = |a: ModelOf<A5::Fruit>, b: ModelOf<A5::Fruit>|
                A5::merged(meaning.4, a, b);
            let part = A5::contributions(meaning.4, doc, score);
            lemma_folded_through(inner, outer, put, lift, before.4, part);
            assert(put(before.4) == before);
            assert(output.model() == put(folded(inner, before.4, part)));
            lemma_folded_parts(outer, start, done, part.map_values(lift));
            done = done + part.map_values(lift);
        }
        let ghost before = output.model();
        self.5.collect(doc, score, &mut output.5);
        proof {
            let put = |x: ModelOf<A6::Fruit>| (
                before.0,
                before.1,
                before.2,
                before.3,
                before.4,
                x,
                before.6,
            );
            let lift = |d: ModelOf<A6::Fruit>| (
                A1::empty(meaning.0),
                A2::empty(meaning.1),
                A3::empty(meaning.2),
                A4::empty(meaning.3),
                A5::empty(meaning.4),
                d,
                A7::empty(meaning.6),
            );
            let inner = |a: ModelOf<A6::Fruit>, b: ModelOf<A6::Fruit>|
                A6::merged(meaning.5, a, b);
            let part = A6::contributions(meaning.5, doc, score);
            lemma_folded_through(inner, outer, put, lift, before.5, part);
            assert(put(before.5) == before);
            assert(output.model() == put(folded(inner, before.5, part)));
            lemma_folded_parts(outer, start, done, part.map_values(lift));
            done = done + part.map_values(lift);
        }
        let ghost before = output.model();
        self.6.collect(doc, score, &mut output.6);
        proof {
            let put = |x: ModelOf<A7::Fruit>| (
                before.0,
                before.1,
                before.2,
                before.3,
                before.4,
                before.5,
                x,
            );
            let lift = |d: ModelOf<A7::Fruit>| (
                A1::empty(meaning.0),
                A2::empty(meaning.1),
                A3::empty(meaning.2),
                A4::empty(meaning.3),
                A5::empty(meaning.4),
                A6::empty(meaning.5),
                d,
            );
            let inner = |a: ModelOf<A7::Fruit>, b: ModelOf<A7::Fruit>|
                A7::merged(meaning.6, a, b);
            let part = A7::contributions(meaning.6, doc, score);
            lemma_folded_through(inner, outer, put, lift, before.6, part);
            assert(put(before.6) == before);
            assert(output.model() == put(folded(inner, before.6, part)));
            lemma_folded_parts(outer, start, done, part.map_values(lift));
            done = done + part.map_values(lift);
        }
        proof {
            assert(done =~= Self::contributions(meaning, doc, score));
        }
    }
}

impl<
    A1: FruitModel,
    A2: FruitModel,
    A3: FruitModel,
    A4: FruitModel,
    A5: FruitModel,
    A6: FruitModel,
    A7: FruitModel,
    A8: FruitModel,
> FruitModel for (A1, A2, A3, A4, A5, A6, A7, A8) {
    type Model = (
        A1::Model,
        A2::Model,
        A3::Model,
        A4::Model,
        A5::Model,
        A6::Model,
        A7::Model,
        A8::Model,
    );

    open spec fn model(&self) -> Self::Model {
        (
            self.0.model(),
            self.1.model(),
            self.2.model(),
            self.3.model(),
            self.4.model(),
            self.5.model(),
            self.6.model(),
            self.7.model(),
        )
    }
}

impl<
    A1: Agg,
    A2: Agg,
    A3: Agg,
    A4: Agg,
    A5: Agg,
    A6: Agg,
    A7: Agg,
    A8: Agg,
> Agg for (A1, A2, A3, A4, A5, A6, A7, A8) {
    type Fruit = (
        A1::Fruit,
        A2::Fruit,
        A3::Fruit,
        A4::Fruit,
        A5::Fruit,
        A6::Fruit,
        A7::Fruit,
        A8::Fruit,
    );

    type Child = (
        A1::Child,
        A2::Child,
        A3::Child,
        A4::Child,
        A5::Child,
        A6::Child,
        A7::Child,
        A8::Child,
    );

    open spec fn leaf_scoring(&self) -> Seq<bool> {
        self.0.leaf_scoring()
            + self.1.leaf_scoring()
            + self.2.leaf_scoring()
            + self.3.leaf_scoring()
            + self.4.leaf_scoring()
            + self.5.leaf_scoring()
            + self.6.leaf_scoring()
            + self.7.leaf_scoring()
    }

    open spec fn inv(&self) -> bool {
        self.0.inv()
            && self.1.inv()
            && self.2.inv()
            && self.3.inv()
            && self.4.inv()
            && self.5.inv()
            && self.6.inv()
            && self.7.inv()
    }

    open spec fn steady(&self) -> bool {
        self.0.steady()
            && self.1.steady()
            && self.2.steady()
            && self.3.steady()
            && self.4.steady()
            && self.5.steady()
            && self.6.steady()
            && self.7.steady()
    }

    open spec fn runs_on(&self, searcher: tantivy::Searcher) -> bool {
        self.0.runs_on(searcher)
            && self.1.runs_on(searcher)
            && self.2.runs_on(searcher)
            && self.3.runs_on(searcher)
            && self.4.runs_on(searcher)
            && self.5.runs_on(searcher)
            && self.6.runs_on(searcher)
            && self.7.runs_on(searcher)
    }

    open spec fn prepare_error(&self, searcher: tantivy::Searcher) -> Option<AggError> {
        if self.0.prepare_error(searcher) is Some {
            self.0.prepare_error(searcher)
        } else if self.1.prepare_error(searcher) is Some {
            self.1.prepare_error(searcher)
        } else if self.2.prepare_error(searcher) is Some {
            self.2.prepare_error(searcher)
        } else if self.3.prepare_error(searcher) is Some {
            self.3.prepare_error(searcher)
        } else if self.4.prepare_error(searcher) is Some {
            self.4.prepare_error(searcher)
        } else if self.5.prepare_error(searcher) is Some {
            self.5.prepare_error(searcher)
        } else if self.6.prepare_error(searcher) is Some {
            self.6.prepare_error(searcher)
        } else {
            self.7.prepare_error(searcher)
        }
    }

    open spec fn prepared_by(&self, searcher: tantivy::Searcher, prepared: Self::Child) -> bool {
        self.0.prepared_by(searcher, prepared.0)
            && self.1.prepared_by(searcher, prepared.1)
            && self.2.prepared_by(searcher, prepared.2)
            && self.3.prepared_by(searcher, prepared.3)
            && self.4.prepared_by(searcher, prepared.4)
            && self.5.prepared_by(searcher, prepared.5)
            && self.6.prepared_by(searcher, prepared.6)
            && self.7.prepared_by(searcher, prepared.7)
    }

    open spec fn prepares(&self, prepared: Self::Child) -> bool {
        self.0.prepares(prepared.0)
            && self.1.prepares(prepared.1)
            && self.2.prepares(prepared.2)
            && self.3.prepares(prepared.3)
            && self.4.prepares(prepared.4)
            && self.5.prepares(prepared.5)
            && self.6.prepares(prepared.6)
            && self.7.prepares(prepared.7)
    }

    fn prepare(&self, searcher: &tantivy::Searcher) -> (r: Result<Self::Child, AggError>) {
        let prepared0 = match self.0.prepare(searcher) {
            Ok(prepared) => prepared,
            Err(e) => {
                return Err(e);
            },
        };
        let prepared1 = match self.1.prepare(searcher) {
            Ok(prepared) => prepared,
            Err(e) => {
                return Err(e);
            },
        };
        let prepared2 = match self.2.prepare(searcher) {
            Ok(prepared) => prepared,
            Err(e) => {
                return Err(e);
            },
        };
        let prepared3 = match self.3.prepare(searcher) {
            Ok(prepared) => prepared,
            Err(e) => {
                return Err(e);
            },
        };
        let prepared4 = match self.4.prepare(searcher) {
            Ok(prepared) => prepared,
            Err(e) => {
                return Err(e);
            },
        };
        let prepared5 = match self.5.prepare(searcher) {
            Ok(prepared) => prepared,
            Err(e) => {
                return Err(e);
            },
        };
        let prepared6 = match self.6.prepare(searcher) {
            Ok(prepared) => prepared,
            Err(e) => {
                return Err(e);
            },
        };
        let prepared7 = match self.7.prepare(searcher) {
            Ok(prepared) => prepared,
            Err(e) => {
                return Err(e);
            },
        };
        Ok((prepared0, prepared1, prepared2, prepared3, prepared4, prepared5, prepared6, prepared7))
    }

    fn requires_scoring(&self) -> (scoring: bool) {
        let scoring0 = self.0.requires_scoring();
        let scoring1 = self.1.requires_scoring();
        let scoring2 = self.2.requires_scoring();
        let scoring3 = self.3.requires_scoring();
        let scoring4 = self.4.requires_scoring();
        let scoring5 = self.5.requires_scoring();
        let scoring6 = self.6.requires_scoring();
        let scoring7 = self.7.requires_scoring();
        proof {
            let mut seen = self.0.leaf_scoring();
            lemma_scoring_joins(seen, self.1.leaf_scoring());
            seen = seen + self.1.leaf_scoring();
            lemma_scoring_joins(seen, self.2.leaf_scoring());
            seen = seen + self.2.leaf_scoring();
            lemma_scoring_joins(seen, self.3.leaf_scoring());
            seen = seen + self.3.leaf_scoring();
            lemma_scoring_joins(seen, self.4.leaf_scoring());
            seen = seen + self.4.leaf_scoring();
            lemma_scoring_joins(seen, self.5.leaf_scoring());
            seen = seen + self.5.leaf_scoring();
            lemma_scoring_joins(seen, self.6.leaf_scoring());
            seen = seen + self.6.leaf_scoring();
            lemma_scoring_joins(seen, self.7.leaf_scoring());
            seen = seen + self.7.leaf_scoring();
        }
        scoring0 || scoring1 || scoring2 || scoring3 || scoring4 || scoring5 || scoring6 || scoring7
    }
}

impl<
    A1: PreparedAgg,
    A2: PreparedAgg,
    A3: PreparedAgg,
    A4: PreparedAgg,
    A5: PreparedAgg,
    A6: PreparedAgg,
    A7: PreparedAgg,
    A8: PreparedAgg,
> PreparedAgg for (A1, A2, A3, A4, A5, A6, A7, A8) {
    type Fruit = (
        A1::Fruit,
        A2::Fruit,
        A3::Fruit,
        A4::Fruit,
        A5::Fruit,
        A6::Fruit,
        A7::Fruit,
        A8::Fruit,
    );

    type Child = (
        A1::Child,
        A2::Child,
        A3::Child,
        A4::Child,
        A5::Child,
        A6::Child,
        A7::Child,
        A8::Child,
    );

    open spec fn inv(&self) -> bool {
        self.0.inv()
            && self.1.inv()
            && self.2.inv()
            && self.3.inv()
            && self.4.inv()
            && self.5.inv()
            && self.6.inv()
            && self.7.inv()
    }

    open spec fn fruit_ok(&self, fruit: ModelOf<Self::Fruit>) -> bool {
        self.0.fruit_ok(fruit.0)
            && self.1.fruit_ok(fruit.1)
            && self.2.fruit_ok(fruit.2)
            && self.3.fruit_ok(fruit.3)
            && self.4.fruit_ok(fruit.4)
            && self.5.fruit_ok(fruit.5)
            && self.6.fruit_ok(fruit.6)
            && self.7.fruit_ok(fruit.7)
    }

    open spec fn empty(&self) -> ModelOf<Self::Fruit> {
        (
            self.0.empty(),
            self.1.empty(),
            self.2.empty(),
            self.3.empty(),
            self.4.empty(),
            self.5.empty(),
            self.6.empty(),
            self.7.empty(),
        )
    }

    open spec fn merged(&self, a: ModelOf<Self::Fruit>, b: ModelOf<Self::Fruit>) -> ModelOf<Self::Fruit>
    {
        (
            self.0.merged(a.0, b.0),
            self.1.merged(a.1, b.1),
            self.2.merged(a.2, b.2),
            self.3.merged(a.3, b.3),
            self.4.merged(a.4, b.4),
            self.5.merged(a.5, b.5),
            self.6.merged(a.6, b.6),
            self.7.merged(a.7, b.7),
        )
    }

    open spec fn fits(&self, a: ModelOf<Self::Fruit>, b: ModelOf<Self::Fruit>) -> bool {
        self.0.fits(a.0, b.0)
            && self.1.fits(a.1, b.1)
            && self.2.fits(a.2, b.2)
            && self.3.fits(a.3, b.3)
            && self.4.fits(a.4, b.4)
            && self.5.fits(a.5, b.5)
            && self.6.fits(a.6, b.6)
            && self.7.fits(a.7, b.7)
    }

    open spec fn spawns(&self, meaning: <Self::Child as SegmentAgg>::Meaning) -> bool {
        self.0.spawns(meaning.0)
            && self.1.spawns(meaning.1)
            && self.2.spawns(meaning.2)
            && self.3.spawns(meaning.3)
            && self.4.spawns(meaning.4)
            && self.5.spawns(meaning.5)
            && self.6.spawns(meaning.6)
            && self.7.spawns(meaning.7)
    }

    open spec fn runs_on(&self, reader: tantivy::SegmentReader) -> bool {
        self.0.runs_on(reader)
            && self.1.runs_on(reader)
            && self.2.runs_on(reader)
            && self.3.runs_on(reader)
            && self.4.runs_on(reader)
            && self.5.runs_on(reader)
            && self.6.runs_on(reader)
            && self.7.runs_on(reader)
    }

    open spec fn meaning_on(&self, ctx: AggSegmentContext) -> Result<
        <Self::Child as SegmentAgg>::Meaning,
        AggError,
    > {
        if self.0.meaning_on(ctx) is Err {
            Err(self.0.meaning_on(ctx)->Err_0)
        } else if self.1.meaning_on(ctx) is Err {
            Err(self.1.meaning_on(ctx)->Err_0)
        } else if self.2.meaning_on(ctx) is Err {
            Err(self.2.meaning_on(ctx)->Err_0)
        } else if self.3.meaning_on(ctx) is Err {
            Err(self.3.meaning_on(ctx)->Err_0)
        } else if self.4.meaning_on(ctx) is Err {
            Err(self.4.meaning_on(ctx)->Err_0)
        } else if self.5.meaning_on(ctx) is Err {
            Err(self.5.meaning_on(ctx)->Err_0)
        } else if self.6.meaning_on(ctx) is Err {
            Err(self.6.meaning_on(ctx)->Err_0)
        } else if self.7.meaning_on(ctx) is Err {
            Err(self.7.meaning_on(ctx)->Err_0)
        } else {
            Ok((
                self.0.meaning_on(ctx)->Ok_0,
                self.1.meaning_on(ctx)->Ok_0,
                self.2.meaning_on(ctx)->Ok_0,
                self.3.meaning_on(ctx)->Ok_0,
                self.4.meaning_on(ctx)->Ok_0,
                self.5.meaning_on(ctx)->Ok_0,
                self.6.meaning_on(ctx)->Ok_0,
                self.7.meaning_on(ctx)->Ok_0,
            ))
        }
    }

    open spec fn steady(&self) -> bool {
        self.0.steady()
            && self.1.steady()
            && self.2.steady()
            && self.3.steady()
            && self.4.steady()
            && self.5.steady()
            && self.6.steady()
            && self.7.steady()
    }

    fn create_fruit(&self) -> (fruit: Self::Fruit) {
        (
            self.0.create_fruit(),
            self.1.create_fruit(),
            self.2.create_fruit(),
            self.3.create_fruit(),
            self.4.create_fruit(),
            self.5.create_fruit(),
            self.6.create_fruit(),
            self.7.create_fruit(),
        )
    }

    fn for_segment(&self, ctx: &AggSegmentContext) -> (r: Result<Self::Child, AggError>) {
        let child0 = match self.0.for_segment(ctx) {
            Ok(child) => child,
            Err(e) => {
                return Err(e);
            },
        };
        let child1 = match self.1.for_segment(ctx) {
            Ok(child) => child,
            Err(e) => {
                return Err(e);
            },
        };
        let child2 = match self.2.for_segment(ctx) {
            Ok(child) => child,
            Err(e) => {
                return Err(e);
            },
        };
        let child3 = match self.3.for_segment(ctx) {
            Ok(child) => child,
            Err(e) => {
                return Err(e);
            },
        };
        let child4 = match self.4.for_segment(ctx) {
            Ok(child) => child,
            Err(e) => {
                return Err(e);
            },
        };
        let child5 = match self.5.for_segment(ctx) {
            Ok(child) => child,
            Err(e) => {
                return Err(e);
            },
        };
        let child6 = match self.6.for_segment(ctx) {
            Ok(child) => child,
            Err(e) => {
                return Err(e);
            },
        };
        let child7 = match self.7.for_segment(ctx) {
            Ok(child) => child,
            Err(e) => {
                return Err(e);
            },
        };
        Ok((child0, child1, child2, child3, child4, child5, child6, child7))
    }

    fn merge(&self, acc: &mut Self::Fruit, fruit: Self::Fruit) {
        let (fruit0, fruit1, fruit2, fruit3, fruit4, fruit5, fruit6, fruit7) = fruit;
        self.0.merge(&mut acc.0, fruit0);
        self.1.merge(&mut acc.1, fruit1);
        self.2.merge(&mut acc.2, fruit2);
        self.3.merge(&mut acc.3, fruit3);
        self.4.merge(&mut acc.4, fruit4);
        self.5.merge(&mut acc.5, fruit5);
        self.6.merge(&mut acc.6, fruit6);
        self.7.merge(&mut acc.7, fruit7);
    }

    proof fn law_identity(&self, a: ModelOf<Self::Fruit>) {
        self.0.law_identity(a.0);
        self.1.law_identity(a.1);
        self.2.law_identity(a.2);
        self.3.law_identity(a.3);
        self.4.law_identity(a.4);
        self.5.law_identity(a.5);
        self.6.law_identity(a.6);
        self.7.law_identity(a.7);
    }

    proof fn law_commutative(&self, a: ModelOf<Self::Fruit>, b: ModelOf<Self::Fruit>) {
        self.0.law_commutative(a.0, b.0);
        self.1.law_commutative(a.1, b.1);
        self.2.law_commutative(a.2, b.2);
        self.3.law_commutative(a.3, b.3);
        self.4.law_commutative(a.4, b.4);
        self.5.law_commutative(a.5, b.5);
        self.6.law_commutative(a.6, b.6);
        self.7.law_commutative(a.7, b.7);
    }

    proof fn law_associative(
        &self,
        a: ModelOf<Self::Fruit>,
        b: ModelOf<Self::Fruit>,
        c: ModelOf<Self::Fruit>,
    ) {
        self.0.law_associative(a.0, b.0, c.0);
        self.1.law_associative(a.1, b.1, c.1);
        self.2.law_associative(a.2, b.2, c.2);
        self.3.law_associative(a.3, b.3, c.3);
        self.4.law_associative(a.4, b.4, c.4);
        self.5.law_associative(a.5, b.5, c.5);
        self.6.law_associative(a.6, b.6, c.6);
        self.7.law_associative(a.7, b.7, c.7);
    }

    proof fn law_child(&self, meaning: <Self::Child as SegmentAgg>::Meaning) {
        self.0.law_child(meaning.0);
        self.0.law_identity(self.0.empty());
        self.1.law_child(meaning.1);
        self.1.law_identity(self.1.empty());
        self.2.law_child(meaning.2);
        self.2.law_identity(self.2.empty());
        self.3.law_child(meaning.3);
        self.3.law_identity(self.3.empty());
        self.4.law_child(meaning.4);
        self.4.law_identity(self.4.empty());
        self.5.law_child(meaning.5);
        self.5.law_identity(self.5.empty());
        self.6.law_child(meaning.6);
        self.6.law_identity(self.6.empty());
        self.7.law_child(meaning.7);
        self.7.law_identity(self.7.empty());
        assert forall|a: ModelOf<Self::Fruit>, b: ModelOf<Self::Fruit>| #[trigger]
            Self::Child::merged(meaning, a, b) == self.merged(a, b) by {
            assert(A1::Child::merged(meaning.0, a.0, b.0) == self.0.merged(a.0, b.0));
            assert(A2::Child::merged(meaning.1, a.1, b.1) == self.1.merged(a.1, b.1));
            assert(A3::Child::merged(meaning.2, a.2, b.2) == self.2.merged(a.2, b.2));
            assert(A4::Child::merged(meaning.3, a.3, b.3) == self.3.merged(a.3, b.3));
            assert(A5::Child::merged(meaning.4, a.4, b.4) == self.4.merged(a.4, b.4));
            assert(A6::Child::merged(meaning.5, a.5, b.5) == self.5.merged(a.5, b.5));
            assert(A7::Child::merged(meaning.6, a.6, b.6) == self.6.merged(a.6, b.6));
            assert(A8::Child::merged(meaning.7, a.7, b.7) == self.7.merged(a.7, b.7));
        }
        assert forall|a: ModelOf<Self::Fruit>| #[trigger]
            Self::Child::fruit_ok(meaning, a) == self.fruit_ok(a) by {
            assert(A1::Child::fruit_ok(meaning.0, a.0) == self.0.fruit_ok(a.0));
            assert(A2::Child::fruit_ok(meaning.1, a.1) == self.1.fruit_ok(a.1));
            assert(A3::Child::fruit_ok(meaning.2, a.2) == self.2.fruit_ok(a.2));
            assert(A4::Child::fruit_ok(meaning.3, a.3) == self.3.fruit_ok(a.3));
            assert(A5::Child::fruit_ok(meaning.4, a.4) == self.4.fruit_ok(a.4));
            assert(A6::Child::fruit_ok(meaning.5, a.5) == self.5.fruit_ok(a.5));
            assert(A7::Child::fruit_ok(meaning.6, a.6) == self.6.fruit_ok(a.6));
            assert(A8::Child::fruit_ok(meaning.7, a.7) == self.7.fruit_ok(a.7));
        }
        assert forall|doc: DocId, score: ScoreBits, i: int|
            0 <= i < Self::Child::contributions(meaning, doc, score).len() implies self.fruit_ok(
            #[trigger] Self::Child::contributions(meaning, doc, score)[i],
        ) by {
            let ok = |f: ModelOf<Self::Fruit>| self.fruit_ok(f);
            let part0 = A1::Child::contributions(meaning.0, doc, score).map_values(
                |d: ModelOf<A1::Fruit>| (
                    d,
                    A2::Child::empty(meaning.1),
                    A3::Child::empty(meaning.2),
                    A4::Child::empty(meaning.3),
                    A5::Child::empty(meaning.4),
                    A6::Child::empty(meaning.5),
                    A7::Child::empty(meaning.6),
                    A8::Child::empty(meaning.7),
                ),
            );
            assert forall|j: int| 0 <= j < part0.len() implies ok(#[trigger] part0[j]) by {
                assert(self.0.fruit_ok(A1::Child::contributions(meaning.0, doc, score)[j]));
            }
            let part1 = A2::Child::contributions(meaning.1, doc, score).map_values(
                |d: ModelOf<A2::Fruit>| (
                    A1::Child::empty(meaning.0),
                    d,
                    A3::Child::empty(meaning.2),
                    A4::Child::empty(meaning.3),
                    A5::Child::empty(meaning.4),
                    A6::Child::empty(meaning.5),
                    A7::Child::empty(meaning.6),
                    A8::Child::empty(meaning.7),
                ),
            );
            assert forall|j: int| 0 <= j < part1.len() implies ok(#[trigger] part1[j]) by {
                assert(self.1.fruit_ok(A2::Child::contributions(meaning.1, doc, score)[j]));
            }
            let part2 = A3::Child::contributions(meaning.2, doc, score).map_values(
                |d: ModelOf<A3::Fruit>| (
                    A1::Child::empty(meaning.0),
                    A2::Child::empty(meaning.1),
                    d,
                    A4::Child::empty(meaning.3),
                    A5::Child::empty(meaning.4),
                    A6::Child::empty(meaning.5),
                    A7::Child::empty(meaning.6),
                    A8::Child::empty(meaning.7),
                ),
            );
            assert forall|j: int| 0 <= j < part2.len() implies ok(#[trigger] part2[j]) by {
                assert(self.2.fruit_ok(A3::Child::contributions(meaning.2, doc, score)[j]));
            }
            let part3 = A4::Child::contributions(meaning.3, doc, score).map_values(
                |d: ModelOf<A4::Fruit>| (
                    A1::Child::empty(meaning.0),
                    A2::Child::empty(meaning.1),
                    A3::Child::empty(meaning.2),
                    d,
                    A5::Child::empty(meaning.4),
                    A6::Child::empty(meaning.5),
                    A7::Child::empty(meaning.6),
                    A8::Child::empty(meaning.7),
                ),
            );
            assert forall|j: int| 0 <= j < part3.len() implies ok(#[trigger] part3[j]) by {
                assert(self.3.fruit_ok(A4::Child::contributions(meaning.3, doc, score)[j]));
            }
            let part4 = A5::Child::contributions(meaning.4, doc, score).map_values(
                |d: ModelOf<A5::Fruit>| (
                    A1::Child::empty(meaning.0),
                    A2::Child::empty(meaning.1),
                    A3::Child::empty(meaning.2),
                    A4::Child::empty(meaning.3),
                    d,
                    A6::Child::empty(meaning.5),
                    A7::Child::empty(meaning.6),
                    A8::Child::empty(meaning.7),
                ),
            );
            assert forall|j: int| 0 <= j < part4.len() implies ok(#[trigger] part4[j]) by {
                assert(self.4.fruit_ok(A5::Child::contributions(meaning.4, doc, score)[j]));
            }
            let part5 = A6::Child::contributions(meaning.5, doc, score).map_values(
                |d: ModelOf<A6::Fruit>| (
                    A1::Child::empty(meaning.0),
                    A2::Child::empty(meaning.1),
                    A3::Child::empty(meaning.2),
                    A4::Child::empty(meaning.3),
                    A5::Child::empty(meaning.4),
                    d,
                    A7::Child::empty(meaning.6),
                    A8::Child::empty(meaning.7),
                ),
            );
            assert forall|j: int| 0 <= j < part5.len() implies ok(#[trigger] part5[j]) by {
                assert(self.5.fruit_ok(A6::Child::contributions(meaning.5, doc, score)[j]));
            }
            let part6 = A7::Child::contributions(meaning.6, doc, score).map_values(
                |d: ModelOf<A7::Fruit>| (
                    A1::Child::empty(meaning.0),
                    A2::Child::empty(meaning.1),
                    A3::Child::empty(meaning.2),
                    A4::Child::empty(meaning.3),
                    A5::Child::empty(meaning.4),
                    A6::Child::empty(meaning.5),
                    d,
                    A8::Child::empty(meaning.7),
                ),
            );
            assert forall|j: int| 0 <= j < part6.len() implies ok(#[trigger] part6[j]) by {
                assert(self.6.fruit_ok(A7::Child::contributions(meaning.6, doc, score)[j]));
            }
            let part7 = A8::Child::contributions(meaning.7, doc, score).map_values(
                |d: ModelOf<A8::Fruit>| (
                    A1::Child::empty(meaning.0),
                    A2::Child::empty(meaning.1),
                    A3::Child::empty(meaning.2),
                    A4::Child::empty(meaning.3),
                    A5::Child::empty(meaning.4),
                    A6::Child::empty(meaning.5),
                    A7::Child::empty(meaning.6),
                    d,
                ),
            );
            assert forall|j: int| 0 <= j < part7.len() implies ok(#[trigger] part7[j]) by {
                assert(self.7.fruit_ok(A8::Child::contributions(meaning.7, doc, score)[j]));
            }
            lemma_all_joined(ok, part0, part1);
            lemma_all_joined(ok, part0 + part1, part2);
            lemma_all_joined(ok, part0 + part1 + part2, part3);
            lemma_all_joined(ok, part0 + part1 + part2 + part3, part4);
            lemma_all_joined(ok, part0 + part1 + part2 + part3 + part4, part5);
            lemma_all_joined(ok, part0 + part1 + part2 + part3 + part4 + part5, part6);
            lemma_all_joined(ok, part0 + part1 + part2 + part3 + part4 + part5 + part6, part7);
        }
    }
}

impl<
    A1: SegmentAgg,
    A2: SegmentAgg,
    A3: SegmentAgg,
    A4: SegmentAgg,
    A5: SegmentAgg,
    A6: SegmentAgg,
    A7: SegmentAgg,
    A8: SegmentAgg,
> SegmentAgg for (A1, A2, A3, A4, A5, A6, A7, A8) {
    type Fruit = (
        A1::Fruit,
        A2::Fruit,
        A3::Fruit,
        A4::Fruit,
        A5::Fruit,
        A6::Fruit,
        A7::Fruit,
        A8::Fruit,
    );

    type Meaning = (
        A1::Meaning,
        A2::Meaning,
        A3::Meaning,
        A4::Meaning,
        A5::Meaning,
        A6::Meaning,
        A7::Meaning,
        A8::Meaning,
    );

    open spec fn meaning(&self) -> Self::Meaning {
        (
            self.0.meaning(),
            self.1.meaning(),
            self.2.meaning(),
            self.3.meaning(),
            self.4.meaning(),
            self.5.meaning(),
            self.6.meaning(),
            self.7.meaning(),
        )
    }

    open spec fn inv(&self) -> bool {
        self.0.inv()
            && self.1.inv()
            && self.2.inv()
            && self.3.inv()
            && self.4.inv()
            && self.5.inv()
            && self.6.inv()
            && self.7.inv()
    }

    open spec fn frontier(&self) -> nat {
        let front = self.0.frontier();
        let front = highest(front, self.1.frontier());
        let front = highest(front, self.2.frontier());
        let front = highest(front, self.3.frontier());
        let front = highest(front, self.4.frontier());
        let front = highest(front, self.5.frontier());
        let front = highest(front, self.6.frontier());
        let front = highest(front, self.7.frontier());
        front
    }

    open spec fn doc_limit(meaning: Self::Meaning) -> nat {
        let limit = A1::doc_limit(meaning.0);
        let limit = lowest(limit, A2::doc_limit(meaning.1));
        let limit = lowest(limit, A3::doc_limit(meaning.2));
        let limit = lowest(limit, A4::doc_limit(meaning.3));
        let limit = lowest(limit, A5::doc_limit(meaning.4));
        let limit = lowest(limit, A6::doc_limit(meaning.5));
        let limit = lowest(limit, A7::doc_limit(meaning.6));
        let limit = lowest(limit, A8::doc_limit(meaning.7));
        limit
    }

    open spec fn fruit_ok(meaning: Self::Meaning, fruit: ModelOf<Self::Fruit>) -> bool {
        A1::fruit_ok(meaning.0, fruit.0)
            && A2::fruit_ok(meaning.1, fruit.1)
            && A3::fruit_ok(meaning.2, fruit.2)
            && A4::fruit_ok(meaning.3, fruit.3)
            && A5::fruit_ok(meaning.4, fruit.4)
            && A6::fruit_ok(meaning.5, fruit.5)
            && A7::fruit_ok(meaning.6, fruit.6)
            && A8::fruit_ok(meaning.7, fruit.7)
    }

    open spec fn empty(meaning: Self::Meaning) -> ModelOf<Self::Fruit> {
        (
            A1::empty(meaning.0),
            A2::empty(meaning.1),
            A3::empty(meaning.2),
            A4::empty(meaning.3),
            A5::empty(meaning.4),
            A6::empty(meaning.5),
            A7::empty(meaning.6),
            A8::empty(meaning.7),
        )
    }

    open spec fn merged(
        meaning: Self::Meaning,
        a: ModelOf<Self::Fruit>,
        b: ModelOf<Self::Fruit>,
    ) -> ModelOf<Self::Fruit> {
        (
            A1::merged(meaning.0, a.0, b.0),
            A2::merged(meaning.1, a.1, b.1),
            A3::merged(meaning.2, a.2, b.2),
            A4::merged(meaning.3, a.3, b.3),
            A5::merged(meaning.4, a.4, b.4),
            A6::merged(meaning.5, a.5, b.5),
            A7::merged(meaning.6, a.6, b.6),
            A8::merged(meaning.7, a.7, b.7),
        )
    }

    open spec fn contributions(meaning: Self::Meaning, doc: DocId, score: ScoreBits) -> Seq<
        ModelOf<Self::Fruit>,
    > {
        A1::contributions(meaning.0, doc, score).map_values(
                |d: ModelOf<A1::Fruit>| (
                    d,
                    A2::empty(meaning.1),
                    A3::empty(meaning.2),
                    A4::empty(meaning.3),
                    A5::empty(meaning.4),
                    A6::empty(meaning.5),
                    A7::empty(meaning.6),
                    A8::empty(meaning.7),
                ),
            )
            + A2::contributions(meaning.1, doc, score).map_values(
                |d: ModelOf<A2::Fruit>| (
                    A1::empty(meaning.0),
                    d,
                    A3::empty(meaning.2),
                    A4::empty(meaning.3),
                    A5::empty(meaning.4),
                    A6::empty(meaning.5),
                    A7::empty(meaning.6),
                    A8::empty(meaning.7),
                ),
            )
            + A3::contributions(meaning.2, doc, score).map_values(
                |d: ModelOf<A3::Fruit>| (
                    A1::empty(meaning.0),
                    A2::empty(meaning.1),
                    d,
                    A4::empty(meaning.3),
                    A5::empty(meaning.4),
                    A6::empty(meaning.5),
                    A7::empty(meaning.6),
                    A8::empty(meaning.7),
                ),
            )
            + A4::contributions(meaning.3, doc, score).map_values(
                |d: ModelOf<A4::Fruit>| (
                    A1::empty(meaning.0),
                    A2::empty(meaning.1),
                    A3::empty(meaning.2),
                    d,
                    A5::empty(meaning.4),
                    A6::empty(meaning.5),
                    A7::empty(meaning.6),
                    A8::empty(meaning.7),
                ),
            )
            + A5::contributions(meaning.4, doc, score).map_values(
                |d: ModelOf<A5::Fruit>| (
                    A1::empty(meaning.0),
                    A2::empty(meaning.1),
                    A3::empty(meaning.2),
                    A4::empty(meaning.3),
                    d,
                    A6::empty(meaning.5),
                    A7::empty(meaning.6),
                    A8::empty(meaning.7),
                ),
            )
            + A6::contributions(meaning.5, doc, score).map_values(
                |d: ModelOf<A6::Fruit>| (
                    A1::empty(meaning.0),
                    A2::empty(meaning.1),
                    A3::empty(meaning.2),
                    A4::empty(meaning.3),
                    A5::empty(meaning.4),
                    d,
                    A7::empty(meaning.6),
                    A8::empty(meaning.7),
                ),
            )
            + A7::contributions(meaning.6, doc, score).map_values(
                |d: ModelOf<A7::Fruit>| (
                    A1::empty(meaning.0),
                    A2::empty(meaning.1),
                    A3::empty(meaning.2),
                    A4::empty(meaning.3),
                    A5::empty(meaning.4),
                    A6::empty(meaning.5),
                    d,
                    A8::empty(meaning.7),
                ),
            )
            + A8::contributions(meaning.7, doc, score).map_values(
                |d: ModelOf<A8::Fruit>| (
                    A1::empty(meaning.0),
                    A2::empty(meaning.1),
                    A3::empty(meaning.2),
                    A4::empty(meaning.3),
                    A5::empty(meaning.4),
                    A6::empty(meaning.5),
                    A7::empty(meaning.6),
                    d,
                ),
            )
    }

    fn create_fruit(&self) -> (fruit: Self::Fruit) {
        (
            self.0.create_fruit(),
            self.1.create_fruit(),
            self.2.create_fruit(),
            self.3.create_fruit(),
            self.4.create_fruit(),
            self.5.create_fruit(),
            self.6.create_fruit(),
            self.7.create_fruit(),
        )
    }

    proof fn law_empty(meaning: Self::Meaning, a: ModelOf<Self::Fruit>) {
        A1::law_empty(meaning.0, a.0);
        A2::law_empty(meaning.1, a.1);
        A3::law_empty(meaning.2, a.2);
        A4::law_empty(meaning.3, a.3);
        A5::law_empty(meaning.4, a.4);
        A6::law_empty(meaning.5, a.5);
        A7::law_empty(meaning.6, a.6);
        A8::law_empty(meaning.7, a.7);
    }

    fn collect(&mut self, doc: DocId, score: ScoreBits, output: &mut Self::Fruit) {
        let ghost meaning = self.meaning();
        let ghost outer = |a: ModelOf<Self::Fruit>, b: ModelOf<Self::Fruit>|
            Self::merged(meaning, a, b);
        let ghost start = output.model();
        let ghost mut done: Seq<ModelOf<Self::Fruit>> = Seq::empty();
        proof {
            lemma_folded_one(outer, start, start);
            assert forall|c: ModelOf<A1::Fruit>| A1::fruit_ok(meaning.0, c) implies #[trigger]
                A1::merged(meaning.0, c, A1::empty(meaning.0)) == c by {
                A1::law_empty(meaning.0, c);
            }
            assert forall|c: ModelOf<A2::Fruit>| A2::fruit_ok(meaning.1, c) implies #[trigger]
                A2::merged(meaning.1, c, A2::empty(meaning.1)) == c by {
                A2::law_empty(meaning.1, c);
            }
            assert forall|c: ModelOf<A3::Fruit>| A3::fruit_ok(meaning.2, c) implies #[trigger]
                A3::merged(meaning.2, c, A3::empty(meaning.2)) == c by {
                A3::law_empty(meaning.2, c);
            }
            assert forall|c: ModelOf<A4::Fruit>| A4::fruit_ok(meaning.3, c) implies #[trigger]
                A4::merged(meaning.3, c, A4::empty(meaning.3)) == c by {
                A4::law_empty(meaning.3, c);
            }
            assert forall|c: ModelOf<A5::Fruit>| A5::fruit_ok(meaning.4, c) implies #[trigger]
                A5::merged(meaning.4, c, A5::empty(meaning.4)) == c by {
                A5::law_empty(meaning.4, c);
            }
            assert forall|c: ModelOf<A6::Fruit>| A6::fruit_ok(meaning.5, c) implies #[trigger]
                A6::merged(meaning.5, c, A6::empty(meaning.5)) == c by {
                A6::law_empty(meaning.5, c);
            }
            assert forall|c: ModelOf<A7::Fruit>| A7::fruit_ok(meaning.6, c) implies #[trigger]
                A7::merged(meaning.6, c, A7::empty(meaning.6)) == c by {
                A7::law_empty(meaning.6, c);
            }
            assert forall|c: ModelOf<A8::Fruit>| A8::fruit_ok(meaning.7, c) implies #[trigger]
                A8::merged(meaning.7, c, A8::empty(meaning.7)) == c by {
                A8::law_empty(meaning.7, c);
            }
        }
        let ghost before = output.model();
        self.0.collect(doc, score, &mut output.0);
        proof {
            let put = |x: ModelOf<A1::Fruit>| (
                x,
                before.1,
                before.2,
                before.3,
                before.4,
                before.5,
                before.6,
                before.7,
            );
            let lift = |d: ModelOf<A1::Fruit>| (
                d,
                A2::empty(meaning.1),
                A3::empty(meaning.2),
                A4::empty(meaning.3),
                A5::empty(meaning.4),
                A6::empty(meaning.5),
                A7::empty(meaning.6),
                A8::empty(meaning.7),
            );
            let inner = |a: ModelOf<A1::Fruit>, b: ModelOf<A1::Fruit>|
                A1::merged(meaning.0, a, b);
            let part = A1::contributions(meaning.0, doc, score);
            lemma_folded_through(inner, outer, put, lift, before.0, part);
            assert(put(before.0) == before);
            assert(output.model() == put(folded(inner, before.0, part)));
            lemma_folded_parts(outer, start, done, part.map_values(lift));
            done = done + part.map_values(lift);
        }
        let ghost before = output.model();
        self.1.collect(doc, score, &mut output.1);
        proof {
            let put = |x: ModelOf<A2::Fruit>| (
                before.0,
                x,
                before.2,
                before.3,
                before.4,
                before.5,
                before.6,
                before.7,
            );
            let lift = |d: ModelOf<A2::Fruit>| (
                A1::empty(meaning.0),
                d,
                A3::empty(meaning.2),
                A4::empty(meaning.3),
                A5::empty(meaning.4),
                A6::empty(meaning.5),
                A7::empty(meaning.6),
                A8::empty(meaning.7),
            );
            let inner = |a: ModelOf<A2::Fruit>, b: ModelOf<A2::Fruit>|
                A2::merged(meaning.1, a, b);
            let part = A2::contributions(meaning.1, doc, score);
            lemma_folded_through(inner, outer, put, lift, before.1, part);
            assert(put(before.1) == before);
            assert(output.model() == put(folded(inner, before.1, part)));
            lemma_folded_parts(outer, start, done, part.map_values(lift));
            done = done + part.map_values(lift);
        }
        let ghost before = output.model();
        self.2.collect(doc, score, &mut output.2);
        proof {
            let put = |x: ModelOf<A3::Fruit>| (
                before.0,
                before.1,
                x,
                before.3,
                before.4,
                before.5,
                before.6,
                before.7,
            );
            let lift = |d: ModelOf<A3::Fruit>| (
                A1::empty(meaning.0),
                A2::empty(meaning.1),
                d,
                A4::empty(meaning.3),
                A5::empty(meaning.4),
                A6::empty(meaning.5),
                A7::empty(meaning.6),
                A8::empty(meaning.7),
            );
            let inner = |a: ModelOf<A3::Fruit>, b: ModelOf<A3::Fruit>|
                A3::merged(meaning.2, a, b);
            let part = A3::contributions(meaning.2, doc, score);
            lemma_folded_through(inner, outer, put, lift, before.2, part);
            assert(put(before.2) == before);
            assert(output.model() == put(folded(inner, before.2, part)));
            lemma_folded_parts(outer, start, done, part.map_values(lift));
            done = done + part.map_values(lift);
        }
        let ghost before = output.model();
        self.3.collect(doc, score, &mut output.3);
        proof {
            let put = |x: ModelOf<A4::Fruit>| (
                before.0,
                before.1,
                before.2,
                x,
                before.4,
                before.5,
                before.6,
                before.7,
            );
            let lift = |d: ModelOf<A4::Fruit>| (
                A1::empty(meaning.0),
                A2::empty(meaning.1),
                A3::empty(meaning.2),
                d,
                A5::empty(meaning.4),
                A6::empty(meaning.5),
                A7::empty(meaning.6),
                A8::empty(meaning.7),
            );
            let inner = |a: ModelOf<A4::Fruit>, b: ModelOf<A4::Fruit>|
                A4::merged(meaning.3, a, b);
            let part = A4::contributions(meaning.3, doc, score);
            lemma_folded_through(inner, outer, put, lift, before.3, part);
            assert(put(before.3) == before);
            assert(output.model() == put(folded(inner, before.3, part)));
            lemma_folded_parts(outer, start, done, part.map_values(lift));
            done = done + part.map_values(lift);
        }
        let ghost before = output.model();
        self.4.collect(doc, score, &mut output.4);
        proof {
            let put = |x: ModelOf<A5::Fruit>| (
                before.0,
                before.1,
                before.2,
                before.3,
                x,
                before.5,
                before.6,
                before.7,
            );
            let lift = |d: ModelOf<A5::Fruit>| (
                A1::empty(meaning.0),
                A2::empty(meaning.1),
                A3::empty(meaning.2),
                A4::empty(meaning.3),
                d,
                A6::empty(meaning.5),
                A7::empty(meaning.6),
                A8::empty(meaning.7),
            );
            let inner = |a: ModelOf<A5::Fruit>, b: ModelOf<A5::Fruit>|
                A5::merged(meaning.4, a, b);
            let part = A5::contributions(meaning.4, doc, score);
            lemma_folded_through(inner, outer, put, lift, before.4, part);
            assert(put(before.4) == before);
            assert(output.model() == put(folded(inner, before.4, part)));
            lemma_folded_parts(outer, start, done, part.map_values(lift));
            done = done + part.map_values(lift);
        }
        let ghost before = output.model();
        self.5.collect(doc, score, &mut output.5);
        proof {
            let put = |x: ModelOf<A6::Fruit>| (
                before.0,
                before.1,
                before.2,
                before.3,
                before.4,
                x,
                before.6,
                before.7,
            );
            let lift = |d: ModelOf<A6::Fruit>| (
                A1::empty(meaning.0),
                A2::empty(meaning.1),
                A3::empty(meaning.2),
                A4::empty(meaning.3),
                A5::empty(meaning.4),
                d,
                A7::empty(meaning.6),
                A8::empty(meaning.7),
            );
            let inner = |a: ModelOf<A6::Fruit>, b: ModelOf<A6::Fruit>|
                A6::merged(meaning.5, a, b);
            let part = A6::contributions(meaning.5, doc, score);
            lemma_folded_through(inner, outer, put, lift, before.5, part);
            assert(put(before.5) == before);
            assert(output.model() == put(folded(inner, before.5, part)));
            lemma_folded_parts(outer, start, done, part.map_values(lift));
            done = done + part.map_values(lift);
        }
        let ghost before = output.model();
        self.6.collect(doc, score, &mut output.6);
        proof {
            let put = |x: ModelOf<A7::Fruit>| (
                before.0,
                before.1,
                before.2,
                before.3,
                before.4,
                before.5,
                x,
                before.7,
            );
            let lift = |d: ModelOf<A7::Fruit>| (
                A1::empty(meaning.0),
                A2::empty(meaning.1),
                A3::empty(meaning.2),
                A4::empty(meaning.3),
                A5::empty(meaning.4),
                A6::empty(meaning.5),
                d,
                A8::empty(meaning.7),
            );
            let inner = |a: ModelOf<A7::Fruit>, b: ModelOf<A7::Fruit>|
                A7::merged(meaning.6, a, b);
            let part = A7::contributions(meaning.6, doc, score);
            lemma_folded_through(inner, outer, put, lift, before.6, part);
            assert(put(before.6) == before);
            assert(output.model() == put(folded(inner, before.6, part)));
            lemma_folded_parts(outer, start, done, part.map_values(lift));
            done = done + part.map_values(lift);
        }
        let ghost before = output.model();
        self.7.collect(doc, score, &mut output.7);
        proof {
            let put = |x: ModelOf<A8::Fruit>| (
                before.0,
                before.1,
                before.2,
                before.3,
                before.4,
                before.5,
                before.6,
                x,
            );
            let lift = |d: ModelOf<A8::Fruit>| (
                A1::empty(meaning.0),
                A2::empty(meaning.1),
                A3::empty(meaning.2),
                A4::empty(meaning.3),
                A5::empty(meaning.4),
                A6::empty(meaning.5),
                A7::empty(meaning.6),
                d,
            );
            let inner = |a: ModelOf<A8::Fruit>, b: ModelOf<A8::Fruit>|
                A8::merged(meaning.7, a, b);
            let part = A8::contributions(meaning.7, doc, score);
            lemma_folded_through(inner, outer, put, lift, before.7, part);
            assert(put(before.7) == before);
            assert(output.model() == put(folded(inner, before.7, part)));
            lemma_folded_parts(outer, start, done, part.map_values(lift));
            done = done + part.map_values(lift);
        }
        proof {
            assert(done =~= Self::contributions(meaning, doc, score));
        }
    }
}

impl<
    A1: FruitModel,
    A2: FruitModel,
    A3: FruitModel,
    A4: FruitModel,
    A5: FruitModel,
    A6: FruitModel,
    A7: FruitModel,
    A8: FruitModel,
    A9: FruitModel,
> FruitModel for (A1, A2, A3, A4, A5, A6, A7, A8, A9) {
    type Model = (
        A1::Model,
        A2::Model,
        A3::Model,
        A4::Model,
        A5::Model,
        A6::Model,
        A7::Model,
        A8::Model,
        A9::Model,
    );

    open spec fn model(&self) -> Self::Model {
        (
            self.0.model(),
            self.1.model(),
            self.2.model(),
            self.3.model(),
            self.4.model(),
            self.5.model(),
            self.6.model(),
            self.7.model(),
            self.8.model(),
        )
    }
}

impl<
    A1: Agg,
    A2: Agg,
    A3: Agg,
    A4: Agg,
    A5: Agg,
    A6: Agg,
    A7: Agg,
    A8: Agg,
    A9: Agg,
> Agg for (A1, A2, A3, A4, A5, A6, A7, A8, A9) {
    type Fruit = (
        A1::Fruit,
        A2::Fruit,
        A3::Fruit,
        A4::Fruit,
        A5::Fruit,
        A6::Fruit,
        A7::Fruit,
        A8::Fruit,
        A9::Fruit,
    );

    type Child = (
        A1::Child,
        A2::Child,
        A3::Child,
        A4::Child,
        A5::Child,
        A6::Child,
        A7::Child,
        A8::Child,
        A9::Child,
    );

    open spec fn leaf_scoring(&self) -> Seq<bool> {
        self.0.leaf_scoring()
            + self.1.leaf_scoring()
            + self.2.leaf_scoring()
            + self.3.leaf_scoring()
            + self.4.leaf_scoring()
            + self.5.leaf_scoring()
            + self.6.leaf_scoring()
            + self.7.leaf_scoring()
            + self.8.leaf_scoring()
    }

    open spec fn inv(&self) -> bool {
        self.0.inv()
            && self.1.inv()
            && self.2.inv()
            && self.3.inv()
            && self.4.inv()
            && self.5.inv()
            && self.6.inv()
            && self.7.inv()
            && self.8.inv()
    }

    open spec fn steady(&self) -> bool {
        self.0.steady()
            && self.1.steady()
            && self.2.steady()
            && self.3.steady()
            && self.4.steady()
            && self.5.steady()
            && self.6.steady()
            && self.7.steady()
            && self.8.steady()
    }

    open spec fn runs_on(&self, searcher: tantivy::Searcher) -> bool {
        self.0.runs_on(searcher)
            && self.1.runs_on(searcher)
            && self.2.runs_on(searcher)
            && self.3.runs_on(searcher)
            && self.4.runs_on(searcher)
            && self.5.runs_on(searcher)
            && self.6.runs_on(searcher)
            && self.7.runs_on(searcher)
            && self.8.runs_on(searcher)
    }

    open spec fn prepare_error(&self, searcher: tantivy::Searcher) -> Option<AggError> {
        if self.0.prepare_error(searcher) is Some {
            self.0.prepare_error(searcher)
        } else if self.1.prepare_error(searcher) is Some {
            self.1.prepare_error(searcher)
        } else if self.2.prepare_error(searcher) is Some {
            self.2.prepare_error(searcher)
        } else if self.3.prepare_error(searcher) is Some {
            self.3.prepare_error(searcher)
        } else if self.4.prepare_error(searcher) is Some {
            self.4.prepare_error(searcher)
        } else if self.5.prepare_error(searcher) is Some {
            self.5.prepare_error(searcher)
        } else if self.6.prepare_error(searcher) is Some {
            self.6.prepare_error(searcher)
        } else if self.7.prepare_error(searcher) is Some {
            self.7.prepare_error(searcher)
        } else {
            self.8.prepare_error(searcher)
        }
    }

    open spec fn prepared_by(&self, searcher: tantivy::Searcher, prepared: Self::Child) -> bool {
        self.0.prepared_by(searcher, prepared.0)
            && self.1.prepared_by(searcher, prepared.1)
            && self.2.prepared_by(searcher, prepared.2)
            && self.3.prepared_by(searcher, prepared.3)
            && self.4.prepared_by(searcher, prepared.4)
            && self.5.prepared_by(searcher, prepared.5)
            && self.6.prepared_by(searcher, prepared.6)
            && self.7.prepared_by(searcher, prepared.7)
            && self.8.prepared_by(searcher, prepared.8)
    }

    open spec fn prepares(&self, prepared: Self::Child) -> bool {
        self.0.prepares(prepared.0)
            && self.1.prepares(prepared.1)
            && self.2.prepares(prepared.2)
            && self.3.prepares(prepared.3)
            && self.4.prepares(prepared.4)
            && self.5.prepares(prepared.5)
            && self.6.prepares(prepared.6)
            && self.7.prepares(prepared.7)
            && self.8.prepares(prepared.8)
    }

    fn prepare(&self, searcher: &tantivy::Searcher) -> (r: Result<Self::Child, AggError>) {
        let prepared0 = match self.0.prepare(searcher) {
            Ok(prepared) => prepared,
            Err(e) => {
                return Err(e);
            },
        };
        let prepared1 = match self.1.prepare(searcher) {
            Ok(prepared) => prepared,
            Err(e) => {
                return Err(e);
            },
        };
        let prepared2 = match self.2.prepare(searcher) {
            Ok(prepared) => prepared,
            Err(e) => {
                return Err(e);
            },
        };
        let prepared3 = match self.3.prepare(searcher) {
            Ok(prepared) => prepared,
            Err(e) => {
                return Err(e);
            },
        };
        let prepared4 = match self.4.prepare(searcher) {
            Ok(prepared) => prepared,
            Err(e) => {
                return Err(e);
            },
        };
        let prepared5 = match self.5.prepare(searcher) {
            Ok(prepared) => prepared,
            Err(e) => {
                return Err(e);
            },
        };
        let prepared6 = match self.6.prepare(searcher) {
            Ok(prepared) => prepared,
            Err(e) => {
                return Err(e);
            },
        };
        let prepared7 = match self.7.prepare(searcher) {
            Ok(prepared) => prepared,
            Err(e) => {
                return Err(e);
            },
        };
        let prepared8 = match self.8.prepare(searcher) {
            Ok(prepared) => prepared,
            Err(e) => {
                return Err(e);
            },
        };
        Ok((
            prepared0,
            prepared1,
            prepared2,
            prepared3,
            prepared4,
            prepared5,
            prepared6,
            prepared7,
            prepared8,
        ))
    }

    fn requires_scoring(&self) -> (scoring: bool) {
        let scoring0 = self.0.requires_scoring();
        let scoring1 = self.1.requires_scoring();
        let scoring2 = self.2.requires_scoring();
        let scoring3 = self.3.requires_scoring();
        let scoring4 = self.4.requires_scoring();
        let scoring5 = self.5.requires_scoring();
        let scoring6 = self.6.requires_scoring();
        let scoring7 = self.7.requires_scoring();
        let scoring8 = self.8.requires_scoring();
        proof {
            let mut seen = self.0.leaf_scoring();
            lemma_scoring_joins(seen, self.1.leaf_scoring());
            seen = seen + self.1.leaf_scoring();
            lemma_scoring_joins(seen, self.2.leaf_scoring());
            seen = seen + self.2.leaf_scoring();
            lemma_scoring_joins(seen, self.3.leaf_scoring());
            seen = seen + self.3.leaf_scoring();
            lemma_scoring_joins(seen, self.4.leaf_scoring());
            seen = seen + self.4.leaf_scoring();
            lemma_scoring_joins(seen, self.5.leaf_scoring());
            seen = seen + self.5.leaf_scoring();
            lemma_scoring_joins(seen, self.6.leaf_scoring());
            seen = seen + self.6.leaf_scoring();
            lemma_scoring_joins(seen, self.7.leaf_scoring());
            seen = seen + self.7.leaf_scoring();
            lemma_scoring_joins(seen, self.8.leaf_scoring());
            seen = seen + self.8.leaf_scoring();
        }
        scoring0
            || scoring1
            || scoring2
            || scoring3
            || scoring4
            || scoring5
            || scoring6
            || scoring7
            || scoring8
    }
}

impl<
    A1: PreparedAgg,
    A2: PreparedAgg,
    A3: PreparedAgg,
    A4: PreparedAgg,
    A5: PreparedAgg,
    A6: PreparedAgg,
    A7: PreparedAgg,
    A8: PreparedAgg,
    A9: PreparedAgg,
> PreparedAgg for (A1, A2, A3, A4, A5, A6, A7, A8, A9) {
    type Fruit = (
        A1::Fruit,
        A2::Fruit,
        A3::Fruit,
        A4::Fruit,
        A5::Fruit,
        A6::Fruit,
        A7::Fruit,
        A8::Fruit,
        A9::Fruit,
    );

    type Child = (
        A1::Child,
        A2::Child,
        A3::Child,
        A4::Child,
        A5::Child,
        A6::Child,
        A7::Child,
        A8::Child,
        A9::Child,
    );

    open spec fn inv(&self) -> bool {
        self.0.inv()
            && self.1.inv()
            && self.2.inv()
            && self.3.inv()
            && self.4.inv()
            && self.5.inv()
            && self.6.inv()
            && self.7.inv()
            && self.8.inv()
    }

    open spec fn fruit_ok(&self, fruit: ModelOf<Self::Fruit>) -> bool {
        self.0.fruit_ok(fruit.0)
            && self.1.fruit_ok(fruit.1)
            && self.2.fruit_ok(fruit.2)
            && self.3.fruit_ok(fruit.3)
            && self.4.fruit_ok(fruit.4)
            && self.5.fruit_ok(fruit.5)
            && self.6.fruit_ok(fruit.6)
            && self.7.fruit_ok(fruit.7)
            && self.8.fruit_ok(fruit.8)
    }

    open spec fn empty(&self) -> ModelOf<Self::Fruit> {
        (
            self.0.empty(),
            self.1.empty(),
            self.2.empty(),
            self.3.empty(),
            self.4.empty(),
            self.5.empty(),
            self.6.empty(),
            self.7.empty(),
            self.8.empty(),
        )
    }

    open spec fn merged(&self, a: ModelOf<Self::Fruit>, b: ModelOf<Self::Fruit>) -> ModelOf<Self::Fruit>
    {
        (
            self.0.merged(a.0, b.0),
            self.1.merged(a.1, b.1),
            self.2.merged(a.2, b.2),
            self.3.merged(a.3, b.3),
            self.4.merged(a.4, b.4),
            self.5.merged(a.5, b.5),
            self.6.merged(a.6, b.6),
            self.7.merged(a.7, b.7),
            self.8.merged(a.8, b.8),
        )
    }

    open spec fn fits(&self, a: ModelOf<Self::Fruit>, b: ModelOf<Self::Fruit>) -> bool {
        self.0.fits(a.0, b.0)
            && self.1.fits(a.1, b.1)
            && self.2.fits(a.2, b.2)
            && self.3.fits(a.3, b.3)
            && self.4.fits(a.4, b.4)
            && self.5.fits(a.5, b.5)
            && self.6.fits(a.6, b.6)
            && self.7.fits(a.7, b.7)
            && self.8.fits(a.8, b.8)
    }

    open spec fn spawns(&self, meaning: <Self::Child as SegmentAgg>::Meaning) -> bool {
        self.0.spawns(meaning.0)
            && self.1.spawns(meaning.1)
            && self.2.spawns(meaning.2)
            && self.3.spawns(meaning.3)
            && self.4.spawns(meaning.4)
            && self.5.spawns(meaning.5)
            && self.6.spawns(meaning.6)
            && self.7.spawns(meaning.7)
            && self.8.spawns(meaning.8)
    }

    open spec fn runs_on(&self, reader: tantivy::SegmentReader) -> bool {
        self.0.runs_on(reader)
            && self.1.runs_on(reader)
            && self.2.runs_on(reader)
            && self.3.runs_on(reader)
            && self.4.runs_on(reader)
            && self.5.runs_on(reader)
            && self.6.runs_on(reader)
            && self.7.runs_on(reader)
            && self.8.runs_on(reader)
    }

    open spec fn meaning_on(&self, ctx: AggSegmentContext) -> Result<
        <Self::Child as SegmentAgg>::Meaning,
        AggError,
    > {
        if self.0.meaning_on(ctx) is Err {
            Err(self.0.meaning_on(ctx)->Err_0)
        } else if self.1.meaning_on(ctx) is Err {
            Err(self.1.meaning_on(ctx)->Err_0)
        } else if self.2.meaning_on(ctx) is Err {
            Err(self.2.meaning_on(ctx)->Err_0)
        } else if self.3.meaning_on(ctx) is Err {
            Err(self.3.meaning_on(ctx)->Err_0)
        } else if self.4.meaning_on(ctx) is Err {
            Err(self.4.meaning_on(ctx)->Err_0)
        } else if self.5.meaning_on(ctx) is Err {
            Err(self.5.meaning_on(ctx)->Err_0)
        } else if self.6.meaning_on(ctx) is Err {
            Err(self.6.meaning_on(ctx)->Err_0)
        } else if self.7.meaning_on(ctx) is Err {
            Err(self.7.meaning_on(ctx)->Err_0)
        } else if self.8.meaning_on(ctx) is Err {
            Err(self.8.meaning_on(ctx)->Err_0)
        } else {
            Ok((
                self.0.meaning_on(ctx)->Ok_0,
                self.1.meaning_on(ctx)->Ok_0,
                self.2.meaning_on(ctx)->Ok_0,
                self.3.meaning_on(ctx)->Ok_0,
                self.4.meaning_on(ctx)->Ok_0,
                self.5.meaning_on(ctx)->Ok_0,
                self.6.meaning_on(ctx)->Ok_0,
                self.7.meaning_on(ctx)->Ok_0,
                self.8.meaning_on(ctx)->Ok_0,
            ))
        }
    }

    open spec fn steady(&self) -> bool {
        self.0.steady()
            && self.1.steady()
            && self.2.steady()
            && self.3.steady()
            && self.4.steady()
            && self.5.steady()
            && self.6.steady()
            && self.7.steady()
            && self.8.steady()
    }

    fn create_fruit(&self) -> (fruit: Self::Fruit) {
        (
            self.0.create_fruit(),
            self.1.create_fruit(),
            self.2.create_fruit(),
            self.3.create_fruit(),
            self.4.create_fruit(),
            self.5.create_fruit(),
            self.6.create_fruit(),
            self.7.create_fruit(),
            self.8.create_fruit(),
        )
    }

    fn for_segment(&self, ctx: &AggSegmentContext) -> (r: Result<Self::Child, AggError>) {
        let child0 = match self.0.for_segment(ctx) {
            Ok(child) => child,
            Err(e) => {
                return Err(e);
            },
        };
        let child1 = match self.1.for_segment(ctx) {
            Ok(child) => child,
            Err(e) => {
                return Err(e);
            },
        };
        let child2 = match self.2.for_segment(ctx) {
            Ok(child) => child,
            Err(e) => {
                return Err(e);
            },
        };
        let child3 = match self.3.for_segment(ctx) {
            Ok(child) => child,
            Err(e) => {
                return Err(e);
            },
        };
        let child4 = match self.4.for_segment(ctx) {
            Ok(child) => child,
            Err(e) => {
                return Err(e);
            },
        };
        let child5 = match self.5.for_segment(ctx) {
            Ok(child) => child,
            Err(e) => {
                return Err(e);
            },
        };
        let child6 = match self.6.for_segment(ctx) {
            Ok(child) => child,
            Err(e) => {
                return Err(e);
            },
        };
        let child7 = match self.7.for_segment(ctx) {
            Ok(child) => child,
            Err(e) => {
                return Err(e);
            },
        };
        let child8 = match self.8.for_segment(ctx) {
            Ok(child) => child,
            Err(e) => {
                return Err(e);
            },
        };
        Ok((child0, child1, child2, child3, child4, child5, child6, child7, child8))
    }

    fn merge(&self, acc: &mut Self::Fruit, fruit: Self::Fruit) {
        let (fruit0, fruit1, fruit2, fruit3, fruit4, fruit5, fruit6, fruit7, fruit8) = fruit;
        self.0.merge(&mut acc.0, fruit0);
        self.1.merge(&mut acc.1, fruit1);
        self.2.merge(&mut acc.2, fruit2);
        self.3.merge(&mut acc.3, fruit3);
        self.4.merge(&mut acc.4, fruit4);
        self.5.merge(&mut acc.5, fruit5);
        self.6.merge(&mut acc.6, fruit6);
        self.7.merge(&mut acc.7, fruit7);
        self.8.merge(&mut acc.8, fruit8);
    }

    proof fn law_identity(&self, a: ModelOf<Self::Fruit>) {
        self.0.law_identity(a.0);
        self.1.law_identity(a.1);
        self.2.law_identity(a.2);
        self.3.law_identity(a.3);
        self.4.law_identity(a.4);
        self.5.law_identity(a.5);
        self.6.law_identity(a.6);
        self.7.law_identity(a.7);
        self.8.law_identity(a.8);
    }

    proof fn law_commutative(&self, a: ModelOf<Self::Fruit>, b: ModelOf<Self::Fruit>) {
        self.0.law_commutative(a.0, b.0);
        self.1.law_commutative(a.1, b.1);
        self.2.law_commutative(a.2, b.2);
        self.3.law_commutative(a.3, b.3);
        self.4.law_commutative(a.4, b.4);
        self.5.law_commutative(a.5, b.5);
        self.6.law_commutative(a.6, b.6);
        self.7.law_commutative(a.7, b.7);
        self.8.law_commutative(a.8, b.8);
    }

    proof fn law_associative(
        &self,
        a: ModelOf<Self::Fruit>,
        b: ModelOf<Self::Fruit>,
        c: ModelOf<Self::Fruit>,
    ) {
        self.0.law_associative(a.0, b.0, c.0);
        self.1.law_associative(a.1, b.1, c.1);
        self.2.law_associative(a.2, b.2, c.2);
        self.3.law_associative(a.3, b.3, c.3);
        self.4.law_associative(a.4, b.4, c.4);
        self.5.law_associative(a.5, b.5, c.5);
        self.6.law_associative(a.6, b.6, c.6);
        self.7.law_associative(a.7, b.7, c.7);
        self.8.law_associative(a.8, b.8, c.8);
    }

    proof fn law_child(&self, meaning: <Self::Child as SegmentAgg>::Meaning) {
        self.0.law_child(meaning.0);
        self.0.law_identity(self.0.empty());
        self.1.law_child(meaning.1);
        self.1.law_identity(self.1.empty());
        self.2.law_child(meaning.2);
        self.2.law_identity(self.2.empty());
        self.3.law_child(meaning.3);
        self.3.law_identity(self.3.empty());
        self.4.law_child(meaning.4);
        self.4.law_identity(self.4.empty());
        self.5.law_child(meaning.5);
        self.5.law_identity(self.5.empty());
        self.6.law_child(meaning.6);
        self.6.law_identity(self.6.empty());
        self.7.law_child(meaning.7);
        self.7.law_identity(self.7.empty());
        self.8.law_child(meaning.8);
        self.8.law_identity(self.8.empty());
        assert forall|a: ModelOf<Self::Fruit>, b: ModelOf<Self::Fruit>| #[trigger]
            Self::Child::merged(meaning, a, b) == self.merged(a, b) by {
            assert(A1::Child::merged(meaning.0, a.0, b.0) == self.0.merged(a.0, b.0));
            assert(A2::Child::merged(meaning.1, a.1, b.1) == self.1.merged(a.1, b.1));
            assert(A3::Child::merged(meaning.2, a.2, b.2) == self.2.merged(a.2, b.2));
            assert(A4::Child::merged(meaning.3, a.3, b.3) == self.3.merged(a.3, b.3));
            assert(A5::Child::merged(meaning.4, a.4, b.4) == self.4.merged(a.4, b.4));
            assert(A6::Child::merged(meaning.5, a.5, b.5) == self.5.merged(a.5, b.5));
            assert(A7::Child::merged(meaning.6, a.6, b.6) == self.6.merged(a.6, b.6));
            assert(A8::Child::merged(meaning.7, a.7, b.7) == self.7.merged(a.7, b.7));
            assert(A9::Child::merged(meaning.8, a.8, b.8) == self.8.merged(a.8, b.8));
        }
        assert forall|a: ModelOf<Self::Fruit>| #[trigger]
            Self::Child::fruit_ok(meaning, a) == self.fruit_ok(a) by {
            assert(A1::Child::fruit_ok(meaning.0, a.0) == self.0.fruit_ok(a.0));
            assert(A2::Child::fruit_ok(meaning.1, a.1) == self.1.fruit_ok(a.1));
            assert(A3::Child::fruit_ok(meaning.2, a.2) == self.2.fruit_ok(a.2));
            assert(A4::Child::fruit_ok(meaning.3, a.3) == self.3.fruit_ok(a.3));
            assert(A5::Child::fruit_ok(meaning.4, a.4) == self.4.fruit_ok(a.4));
            assert(A6::Child::fruit_ok(meaning.5, a.5) == self.5.fruit_ok(a.5));
            assert(A7::Child::fruit_ok(meaning.6, a.6) == self.6.fruit_ok(a.6));
            assert(A8::Child::fruit_ok(meaning.7, a.7) == self.7.fruit_ok(a.7));
            assert(A9::Child::fruit_ok(meaning.8, a.8) == self.8.fruit_ok(a.8));
        }
        assert forall|doc: DocId, score: ScoreBits, i: int|
            0 <= i < Self::Child::contributions(meaning, doc, score).len() implies self.fruit_ok(
            #[trigger] Self::Child::contributions(meaning, doc, score)[i],
        ) by {
            let ok = |f: ModelOf<Self::Fruit>| self.fruit_ok(f);
            let part0 = A1::Child::contributions(meaning.0, doc, score).map_values(
                |d: ModelOf<A1::Fruit>| (
                    d,
                    A2::Child::empty(meaning.1),
                    A3::Child::empty(meaning.2),
                    A4::Child::empty(meaning.3),
                    A5::Child::empty(meaning.4),
                    A6::Child::empty(meaning.5),
                    A7::Child::empty(meaning.6),
                    A8::Child::empty(meaning.7),
                    A9::Child::empty(meaning.8),
                ),
            );
            assert forall|j: int| 0 <= j < part0.len() implies ok(#[trigger] part0[j]) by {
                assert(self.0.fruit_ok(A1::Child::contributions(meaning.0, doc, score)[j]));
            }
            let part1 = A2::Child::contributions(meaning.1, doc, score).map_values(
                |d: ModelOf<A2::Fruit>| (
                    A1::Child::empty(meaning.0),
                    d,
                    A3::Child::empty(meaning.2),
                    A4::Child::empty(meaning.3),
                    A5::Child::empty(meaning.4),
                    A6::Child::empty(meaning.5),
                    A7::Child::empty(meaning.6),
                    A8::Child::empty(meaning.7),
                    A9::Child::empty(meaning.8),
                ),
            );
            assert forall|j: int| 0 <= j < part1.len() implies ok(#[trigger] part1[j]) by {
                assert(self.1.fruit_ok(A2::Child::contributions(meaning.1, doc, score)[j]));
            }
            let part2 = A3::Child::contributions(meaning.2, doc, score).map_values(
                |d: ModelOf<A3::Fruit>| (
                    A1::Child::empty(meaning.0),
                    A2::Child::empty(meaning.1),
                    d,
                    A4::Child::empty(meaning.3),
                    A5::Child::empty(meaning.4),
                    A6::Child::empty(meaning.5),
                    A7::Child::empty(meaning.6),
                    A8::Child::empty(meaning.7),
                    A9::Child::empty(meaning.8),
                ),
            );
            assert forall|j: int| 0 <= j < part2.len() implies ok(#[trigger] part2[j]) by {
                assert(self.2.fruit_ok(A3::Child::contributions(meaning.2, doc, score)[j]));
            }
            let part3 = A4::Child::contributions(meaning.3, doc, score).map_values(
                |d: ModelOf<A4::Fruit>| (
                    A1::Child::empty(meaning.0),
                    A2::Child::empty(meaning.1),
                    A3::Child::empty(meaning.2),
                    d,
                    A5::Child::empty(meaning.4),
                    A6::Child::empty(meaning.5),
                    A7::Child::empty(meaning.6),
                    A8::Child::empty(meaning.7),
                    A9::Child::empty(meaning.8),
                ),
            );
            assert forall|j: int| 0 <= j < part3.len() implies ok(#[trigger] part3[j]) by {
                assert(self.3.fruit_ok(A4::Child::contributions(meaning.3, doc, score)[j]));
            }
            let part4 = A5::Child::contributions(meaning.4, doc, score).map_values(
                |d: ModelOf<A5::Fruit>| (
                    A1::Child::empty(meaning.0),
                    A2::Child::empty(meaning.1),
                    A3::Child::empty(meaning.2),
                    A4::Child::empty(meaning.3),
                    d,
                    A6::Child::empty(meaning.5),
                    A7::Child::empty(meaning.6),
                    A8::Child::empty(meaning.7),
                    A9::Child::empty(meaning.8),
                ),
            );
            assert forall|j: int| 0 <= j < part4.len() implies ok(#[trigger] part4[j]) by {
                assert(self.4.fruit_ok(A5::Child::contributions(meaning.4, doc, score)[j]));
            }
            let part5 = A6::Child::contributions(meaning.5, doc, score).map_values(
                |d: ModelOf<A6::Fruit>| (
                    A1::Child::empty(meaning.0),
                    A2::Child::empty(meaning.1),
                    A3::Child::empty(meaning.2),
                    A4::Child::empty(meaning.3),
                    A5::Child::empty(meaning.4),
                    d,
                    A7::Child::empty(meaning.6),
                    A8::Child::empty(meaning.7),
                    A9::Child::empty(meaning.8),
                ),
            );
            assert forall|j: int| 0 <= j < part5.len() implies ok(#[trigger] part5[j]) by {
                assert(self.5.fruit_ok(A6::Child::contributions(meaning.5, doc, score)[j]));
            }
            let part6 = A7::Child::contributions(meaning.6, doc, score).map_values(
                |d: ModelOf<A7::Fruit>| (
                    A1::Child::empty(meaning.0),
                    A2::Child::empty(meaning.1),
                    A3::Child::empty(meaning.2),
                    A4::Child::empty(meaning.3),
                    A5::Child::empty(meaning.4),
                    A6::Child::empty(meaning.5),
                    d,
                    A8::Child::empty(meaning.7),
                    A9::Child::empty(meaning.8),
                ),
            );
            assert forall|j: int| 0 <= j < part6.len() implies ok(#[trigger] part6[j]) by {
                assert(self.6.fruit_ok(A7::Child::contributions(meaning.6, doc, score)[j]));
            }
            let part7 = A8::Child::contributions(meaning.7, doc, score).map_values(
                |d: ModelOf<A8::Fruit>| (
                    A1::Child::empty(meaning.0),
                    A2::Child::empty(meaning.1),
                    A3::Child::empty(meaning.2),
                    A4::Child::empty(meaning.3),
                    A5::Child::empty(meaning.4),
                    A6::Child::empty(meaning.5),
                    A7::Child::empty(meaning.6),
                    d,
                    A9::Child::empty(meaning.8),
                ),
            );
            assert forall|j: int| 0 <= j < part7.len() implies ok(#[trigger] part7[j]) by {
                assert(self.7.fruit_ok(A8::Child::contributions(meaning.7, doc, score)[j]));
            }
            let part8 = A9::Child::contributions(meaning.8, doc, score).map_values(
                |d: ModelOf<A9::Fruit>| (
                    A1::Child::empty(meaning.0),
                    A2::Child::empty(meaning.1),
                    A3::Child::empty(meaning.2),
                    A4::Child::empty(meaning.3),
                    A5::Child::empty(meaning.4),
                    A6::Child::empty(meaning.5),
                    A7::Child::empty(meaning.6),
                    A8::Child::empty(meaning.7),
                    d,
                ),
            );
            assert forall|j: int| 0 <= j < part8.len() implies ok(#[trigger] part8[j]) by {
                assert(self.8.fruit_ok(A9::Child::contributions(meaning.8, doc, score)[j]));
            }
            lemma_all_joined(ok, part0, part1);
            lemma_all_joined(ok, part0 + part1, part2);
            lemma_all_joined(ok, part0 + part1 + part2, part3);
            lemma_all_joined(ok, part0 + part1 + part2 + part3, part4);
            lemma_all_joined(ok, part0 + part1 + part2 + part3 + part4, part5);
            lemma_all_joined(ok, part0 + part1 + part2 + part3 + part4 + part5, part6);
            lemma_all_joined(ok, part0 + part1 + part2 + part3 + part4 + part5 + part6, part7);
            lemma_all_joined(ok, part0 + part1 + part2 + part3 + part4 + part5 + part6 + part7, part8);
        }
    }
}

impl<
    A1: SegmentAgg,
    A2: SegmentAgg,
    A3: SegmentAgg,
    A4: SegmentAgg,
    A5: SegmentAgg,
    A6: SegmentAgg,
    A7: SegmentAgg,
    A8: SegmentAgg,
    A9: SegmentAgg,
> SegmentAgg for (A1, A2, A3, A4, A5, A6, A7, A8, A9) {
    type Fruit = (
        A1::Fruit,
        A2::Fruit,
        A3::Fruit,
        A4::Fruit,
        A5::Fruit,
        A6::Fruit,
        A7::Fruit,
        A8::Fruit,
        A9::Fruit,
    );

    type Meaning = (
        A1::Meaning,
        A2::Meaning,
        A3::Meaning,
        A4::Meaning,
        A5::Meaning,
        A6::Meaning,
        A7::Meaning,
        A8::Meaning,
        A9::Meaning,
    );

    open spec fn meaning(&self) -> Self::Meaning {
        (
            self.0.meaning(),
            self.1.meaning(),
            self.2.meaning(),
            self.3.meaning(),
            self.4.meaning(),
            self.5.meaning(),
            self.6.meaning(),
            self.7.meaning(),
            self.8.meaning(),
        )
    }

    open spec fn inv(&self) -> bool {
        self.0.inv()
            && self.1.inv()
            && self.2.inv()
            && self.3.inv()
            && self.4.inv()
            && self.5.inv()
            && self.6.inv()
            && self.7.inv()
            && self.8.inv()
    }

    open spec fn frontier(&self) -> nat {
        let front = self.0.frontier();
        let front = highest(front, self.1.frontier());
        let front = highest(front, self.2.frontier());
        let front = highest(front, self.3.frontier());
        let front = highest(front, self.4.frontier());
        let front = highest(front, self.5.frontier());
        let front = highest(front, self.6.frontier());
        let front = highest(front, self.7.frontier());
        let front = highest(front, self.8.frontier());
        front
    }

    open spec fn doc_limit(meaning: Self::Meaning) -> nat {
        let limit = A1::doc_limit(meaning.0);
        let limit = lowest(limit, A2::doc_limit(meaning.1));
        let limit = lowest(limit, A3::doc_limit(meaning.2));
        let limit = lowest(limit, A4::doc_limit(meaning.3));
        let limit = lowest(limit, A5::doc_limit(meaning.4));
        let limit = lowest(limit, A6::doc_limit(meaning.5));
        let limit = lowest(limit, A7::doc_limit(meaning.6));
        let limit = lowest(limit, A8::doc_limit(meaning.7));
        let limit = lowest(limit, A9::doc_limit(meaning.8));
        limit
    }

    open spec fn fruit_ok(meaning: Self::Meaning, fruit: ModelOf<Self::Fruit>) -> bool {
        A1::fruit_ok(meaning.0, fruit.0)
            && A2::fruit_ok(meaning.1, fruit.1)
            && A3::fruit_ok(meaning.2, fruit.2)
            && A4::fruit_ok(meaning.3, fruit.3)
            && A5::fruit_ok(meaning.4, fruit.4)
            && A6::fruit_ok(meaning.5, fruit.5)
            && A7::fruit_ok(meaning.6, fruit.6)
            && A8::fruit_ok(meaning.7, fruit.7)
            && A9::fruit_ok(meaning.8, fruit.8)
    }

    open spec fn empty(meaning: Self::Meaning) -> ModelOf<Self::Fruit> {
        (
            A1::empty(meaning.0),
            A2::empty(meaning.1),
            A3::empty(meaning.2),
            A4::empty(meaning.3),
            A5::empty(meaning.4),
            A6::empty(meaning.5),
            A7::empty(meaning.6),
            A8::empty(meaning.7),
            A9::empty(meaning.8),
        )
    }

    open spec fn merged(
        meaning: Self::Meaning,
        a: ModelOf<Self::Fruit>,
        b: ModelOf<Self::Fruit>,
    ) -> ModelOf<Self::Fruit> {
        (
            A1::merged(meaning.0, a.0, b.0),
            A2::merged(meaning.1, a.1, b.1),
            A3::merged(meaning.2, a.2, b.2),
            A4::merged(meaning.3, a.3, b.3),
            A5::merged(meaning.4, a.4, b.4),
            A6::merged(meaning.5, a.5, b.5),
            A7::merged(meaning.6, a.6, b.6),
            A8::merged(meaning.7, a.7, b.7),
            A9::merged(meaning.8, a.8, b.8),
        )
    }

    open spec fn contributions(meaning: Self::Meaning, doc: DocId, score: ScoreBits) -> Seq<
        ModelOf<Self::Fruit>,
    > {
        A1::contributions(meaning.0, doc, score).map_values(
                |d: ModelOf<A1::Fruit>| (
                    d,
                    A2::empty(meaning.1),
                    A3::empty(meaning.2),
                    A4::empty(meaning.3),
                    A5::empty(meaning.4),
                    A6::empty(meaning.5),
                    A7::empty(meaning.6),
                    A8::empty(meaning.7),
                    A9::empty(meaning.8),
                ),
            )
            + A2::contributions(meaning.1, doc, score).map_values(
                |d: ModelOf<A2::Fruit>| (
                    A1::empty(meaning.0),
                    d,
                    A3::empty(meaning.2),
                    A4::empty(meaning.3),
                    A5::empty(meaning.4),
                    A6::empty(meaning.5),
                    A7::empty(meaning.6),
                    A8::empty(meaning.7),
                    A9::empty(meaning.8),
                ),
            )
            + A3::contributions(meaning.2, doc, score).map_values(
                |d: ModelOf<A3::Fruit>| (
                    A1::empty(meaning.0),
                    A2::empty(meaning.1),
                    d,
                    A4::empty(meaning.3),
                    A5::empty(meaning.4),
                    A6::empty(meaning.5),
                    A7::empty(meaning.6),
                    A8::empty(meaning.7),
                    A9::empty(meaning.8),
                ),
            )
            + A4::contributions(meaning.3, doc, score).map_values(
                |d: ModelOf<A4::Fruit>| (
                    A1::empty(meaning.0),
                    A2::empty(meaning.1),
                    A3::empty(meaning.2),
                    d,
                    A5::empty(meaning.4),
                    A6::empty(meaning.5),
                    A7::empty(meaning.6),
                    A8::empty(meaning.7),
                    A9::empty(meaning.8),
                ),
            )
            + A5::contributions(meaning.4, doc, score).map_values(
                |d: ModelOf<A5::Fruit>| (
                    A1::empty(meaning.0),
                    A2::empty(meaning.1),
                    A3::empty(meaning.2),
                    A4::empty(meaning.3),
                    d,
                    A6::empty(meaning.5),
                    A7::empty(meaning.6),
                    A8::empty(meaning.7),
                    A9::empty(meaning.8),
                ),
            )
            + A6::contributions(meaning.5, doc, score).map_values(
                |d: ModelOf<A6::Fruit>| (
                    A1::empty(meaning.0),
                    A2::empty(meaning.1),
                    A3::empty(meaning.2),
                    A4::empty(meaning.3),
                    A5::empty(meaning.4),
                    d,
                    A7::empty(meaning.6),
                    A8::empty(meaning.7),
                    A9::empty(meaning.8),
                ),
            )
            + A7::contributions(meaning.6, doc, score).map_values(
                |d: ModelOf<A7::Fruit>| (
                    A1::empty(meaning.0),
                    A2::empty(meaning.1),
                    A3::empty(meaning.2),
                    A4::empty(meaning.3),
                    A5::empty(meaning.4),
                    A6::empty(meaning.5),
                    d,
                    A8::empty(meaning.7),
                    A9::empty(meaning.8),
                ),
            )
            + A8::contributions(meaning.7, doc, score).map_values(
                |d: ModelOf<A8::Fruit>| (
                    A1::empty(meaning.0),
                    A2::empty(meaning.1),
                    A3::empty(meaning.2),
                    A4::empty(meaning.3),
                    A5::empty(meaning.4),
                    A6::empty(meaning.5),
                    A7::empty(meaning.6),
                    d,
                    A9::empty(meaning.8),
                ),
            )
            + A9::contributions(meaning.8, doc, score).map_values(
                |d: ModelOf<A9::Fruit>| (
                    A1::empty(meaning.0),
                    A2::empty(meaning.1),
                    A3::empty(meaning.2),
                    A4::empty(meaning.3),
                    A5::empty(meaning.4),
                    A6::empty(meaning.5),
                    A7::empty(meaning.6),
                    A8::empty(meaning.7),
                    d,
                ),
            )
    }

    fn create_fruit(&self) -> (fruit: Self::Fruit) {
        (
            self.0.create_fruit(),
            self.1.create_fruit(),
            self.2.create_fruit(),
            self.3.create_fruit(),
            self.4.create_fruit(),
            self.5.create_fruit(),
            self.6.create_fruit(),
            self.7.create_fruit(),
            self.8.create_fruit(),
        )
    }

    proof fn law_empty(meaning: Self::Meaning, a: ModelOf<Self::Fruit>) {
        A1::law_empty(meaning.0, a.0);
        A2::law_empty(meaning.1, a.1);
        A3::law_empty(meaning.2, a.2);
        A4::law_empty(meaning.3, a.3);
        A5::law_empty(meaning.4, a.4);
        A6::law_empty(meaning.5, a.5);
        A7::law_empty(meaning.6, a.6);
        A8::law_empty(meaning.7, a.7);
        A9::law_empty(meaning.8, a.8);
    }

    fn collect(&mut self, doc: DocId, score: ScoreBits, output: &mut Self::Fruit) {
        let ghost meaning = self.meaning();
        let ghost outer = |a: ModelOf<Self::Fruit>, b: ModelOf<Self::Fruit>|
            Self::merged(meaning, a, b);
        let ghost start = output.model();
        let ghost mut done: Seq<ModelOf<Self::Fruit>> = Seq::empty();
        proof {
            lemma_folded_one(outer, start, start);
            assert forall|c: ModelOf<A1::Fruit>| A1::fruit_ok(meaning.0, c) implies #[trigger]
                A1::merged(meaning.0, c, A1::empty(meaning.0)) == c by {
                A1::law_empty(meaning.0, c);
            }
            assert forall|c: ModelOf<A2::Fruit>| A2::fruit_ok(meaning.1, c) implies #[trigger]
                A2::merged(meaning.1, c, A2::empty(meaning.1)) == c by {
                A2::law_empty(meaning.1, c);
            }
            assert forall|c: ModelOf<A3::Fruit>| A3::fruit_ok(meaning.2, c) implies #[trigger]
                A3::merged(meaning.2, c, A3::empty(meaning.2)) == c by {
                A3::law_empty(meaning.2, c);
            }
            assert forall|c: ModelOf<A4::Fruit>| A4::fruit_ok(meaning.3, c) implies #[trigger]
                A4::merged(meaning.3, c, A4::empty(meaning.3)) == c by {
                A4::law_empty(meaning.3, c);
            }
            assert forall|c: ModelOf<A5::Fruit>| A5::fruit_ok(meaning.4, c) implies #[trigger]
                A5::merged(meaning.4, c, A5::empty(meaning.4)) == c by {
                A5::law_empty(meaning.4, c);
            }
            assert forall|c: ModelOf<A6::Fruit>| A6::fruit_ok(meaning.5, c) implies #[trigger]
                A6::merged(meaning.5, c, A6::empty(meaning.5)) == c by {
                A6::law_empty(meaning.5, c);
            }
            assert forall|c: ModelOf<A7::Fruit>| A7::fruit_ok(meaning.6, c) implies #[trigger]
                A7::merged(meaning.6, c, A7::empty(meaning.6)) == c by {
                A7::law_empty(meaning.6, c);
            }
            assert forall|c: ModelOf<A8::Fruit>| A8::fruit_ok(meaning.7, c) implies #[trigger]
                A8::merged(meaning.7, c, A8::empty(meaning.7)) == c by {
                A8::law_empty(meaning.7, c);
            }
            assert forall|c: ModelOf<A9::Fruit>| A9::fruit_ok(meaning.8, c) implies #[trigger]
                A9::merged(meaning.8, c, A9::empty(meaning.8)) == c by {
                A9::law_empty(meaning.8, c);
            }
        }
        let ghost before = output.model();
        self.0.collect(doc, score, &mut output.0);
        proof {
            let put = |x: ModelOf<A1::Fruit>| (
                x,
                before.1,
                before.2,
                before.3,
                before.4,
                before.5,
                before.6,
                before.7,
                before.8,
            );
            let lift = |d: ModelOf<A1::Fruit>| (
                d,
                A2::empty(meaning.1),
                A3::empty(meaning.2),
                A4::empty(meaning.3),
                A5::empty(meaning.4),
                A6::empty(meaning.5),
                A7::empty(meaning.6),
                A8::empty(meaning.7),
                A9::empty(meaning.8),
            );
            let inner = |a: ModelOf<A1::Fruit>, b: ModelOf<A1::Fruit>|
                A1::merged(meaning.0, a, b);
            let part = A1::contributions(meaning.0, doc, score);
            lemma_folded_through(inner, outer, put, lift, before.0, part);
            assert(put(before.0) == before);
            assert(output.model() == put(folded(inner, before.0, part)));
            lemma_folded_parts(outer, start, done, part.map_values(lift));
            done = done + part.map_values(lift);
        }
        let ghost before = output.model();
        self.1.collect(doc, score, &mut output.1);
        proof {
            let put = |x: ModelOf<A2::Fruit>| (
                before.0,
                x,
                before.2,
                before.3,
                before.4,
                before.5,
                before.6,
                before.7,
                before.8,
            );
            let lift = |d: ModelOf<A2::Fruit>| (
                A1::empty(meaning.0),
                d,
                A3::empty(meaning.2),
                A4::empty(meaning.3),
                A5::empty(meaning.4),
                A6::empty(meaning.5),
                A7::empty(meaning.6),
                A8::empty(meaning.7),
                A9::empty(meaning.8),
            );
            let inner = |a: ModelOf<A2::Fruit>, b: ModelOf<A2::Fruit>|
                A2::merged(meaning.1, a, b);
            let part = A2::contributions(meaning.1, doc, score);
            lemma_folded_through(inner, outer, put, lift, before.1, part);
            assert(put(before.1) == before);
            assert(output.model() == put(folded(inner, before.1, part)));
            lemma_folded_parts(outer, start, done, part.map_values(lift));
            done = done + part.map_values(lift);
        }
        let ghost before = output.model();
        self.2.collect(doc, score, &mut output.2);
        proof {
            let put = |x: ModelOf<A3::Fruit>| (
                before.0,
                before.1,
                x,
                before.3,
                before.4,
                before.5,
                before.6,
                before.7,
                before.8,
            );
            let lift = |d: ModelOf<A3::Fruit>| (
                A1::empty(meaning.0),
                A2::empty(meaning.1),
                d,
                A4::empty(meaning.3),
                A5::empty(meaning.4),
                A6::empty(meaning.5),
                A7::empty(meaning.6),
                A8::empty(meaning.7),
                A9::empty(meaning.8),
            );
            let inner = |a: ModelOf<A3::Fruit>, b: ModelOf<A3::Fruit>|
                A3::merged(meaning.2, a, b);
            let part = A3::contributions(meaning.2, doc, score);
            lemma_folded_through(inner, outer, put, lift, before.2, part);
            assert(put(before.2) == before);
            assert(output.model() == put(folded(inner, before.2, part)));
            lemma_folded_parts(outer, start, done, part.map_values(lift));
            done = done + part.map_values(lift);
        }
        let ghost before = output.model();
        self.3.collect(doc, score, &mut output.3);
        proof {
            let put = |x: ModelOf<A4::Fruit>| (
                before.0,
                before.1,
                before.2,
                x,
                before.4,
                before.5,
                before.6,
                before.7,
                before.8,
            );
            let lift = |d: ModelOf<A4::Fruit>| (
                A1::empty(meaning.0),
                A2::empty(meaning.1),
                A3::empty(meaning.2),
                d,
                A5::empty(meaning.4),
                A6::empty(meaning.5),
                A7::empty(meaning.6),
                A8::empty(meaning.7),
                A9::empty(meaning.8),
            );
            let inner = |a: ModelOf<A4::Fruit>, b: ModelOf<A4::Fruit>|
                A4::merged(meaning.3, a, b);
            let part = A4::contributions(meaning.3, doc, score);
            lemma_folded_through(inner, outer, put, lift, before.3, part);
            assert(put(before.3) == before);
            assert(output.model() == put(folded(inner, before.3, part)));
            lemma_folded_parts(outer, start, done, part.map_values(lift));
            done = done + part.map_values(lift);
        }
        let ghost before = output.model();
        self.4.collect(doc, score, &mut output.4);
        proof {
            let put = |x: ModelOf<A5::Fruit>| (
                before.0,
                before.1,
                before.2,
                before.3,
                x,
                before.5,
                before.6,
                before.7,
                before.8,
            );
            let lift = |d: ModelOf<A5::Fruit>| (
                A1::empty(meaning.0),
                A2::empty(meaning.1),
                A3::empty(meaning.2),
                A4::empty(meaning.3),
                d,
                A6::empty(meaning.5),
                A7::empty(meaning.6),
                A8::empty(meaning.7),
                A9::empty(meaning.8),
            );
            let inner = |a: ModelOf<A5::Fruit>, b: ModelOf<A5::Fruit>|
                A5::merged(meaning.4, a, b);
            let part = A5::contributions(meaning.4, doc, score);
            lemma_folded_through(inner, outer, put, lift, before.4, part);
            assert(put(before.4) == before);
            assert(output.model() == put(folded(inner, before.4, part)));
            lemma_folded_parts(outer, start, done, part.map_values(lift));
            done = done + part.map_values(lift);
        }
        let ghost before = output.model();
        self.5.collect(doc, score, &mut output.5);
        proof {
            let put = |x: ModelOf<A6::Fruit>| (
                before.0,
                before.1,
                before.2,
                before.3,
                before.4,
                x,
                before.6,
                before.7,
                before.8,
            );
            let lift = |d: ModelOf<A6::Fruit>| (
                A1::empty(meaning.0),
                A2::empty(meaning.1),
                A3::empty(meaning.2),
                A4::empty(meaning.3),
                A5::empty(meaning.4),
                d,
                A7::empty(meaning.6),
                A8::empty(meaning.7),
                A9::empty(meaning.8),
            );
            let inner = |a: ModelOf<A6::Fruit>, b: ModelOf<A6::Fruit>|
                A6::merged(meaning.5, a, b);
            let part = A6::contributions(meaning.5, doc, score);
            lemma_folded_through(inner, outer, put, lift, before.5, part);
            assert(put(before.5) == before);
            assert(output.model() == put(folded(inner, before.5, part)));
            lemma_folded_parts(outer, start, done, part.map_values(lift));
            done = done + part.map_values(lift);
        }
        let ghost before = output.model();
        self.6.collect(doc, score, &mut output.6);
        proof {
            let put = |x: ModelOf<A7::Fruit>| (
                before.0,
                before.1,
                before.2,
                before.3,
                before.4,
                before.5,
                x,
                before.7,
                before.8,
            );
            let lift = |d: ModelOf<A7::Fruit>| (
                A1::empty(meaning.0),
                A2::empty(meaning.1),
                A3::empty(meaning.2),
                A4::empty(meaning.3),
                A5::empty(meaning.4),
                A6::empty(meaning.5),
                d,
                A8::empty(meaning.7),
                A9::empty(meaning.8),
            );
            let inner = |a: ModelOf<A7::Fruit>, b: ModelOf<A7::Fruit>|
                A7::merged(meaning.6, a, b);
            let part = A7::contributions(meaning.6, doc, score);
            lemma_folded_through(inner, outer, put, lift, before.6, part);
            assert(put(before.6) == before);
            assert(output.model() == put(folded(inner, before.6, part)));
            lemma_folded_parts(outer, start, done, part.map_values(lift));
            done = done + part.map_values(lift);
        }
        let ghost before = output.model();
        self.7.collect(doc, score, &mut output.7);
        proof {
            let put = |x: ModelOf<A8::Fruit>| (
                before.0,
                before.1,
                before.2,
                before.3,
                before.4,
                before.5,
                before.6,
                x,
                before.8,
            );
            let lift = |d: ModelOf<A8::Fruit>| (
                A1::empty(meaning.0),
                A2::empty(meaning.1),
                A3::empty(meaning.2),
                A4::empty(meaning.3),
                A5::empty(meaning.4),
                A6::empty(meaning.5),
                A7::empty(meaning.6),
                d,
                A9::empty(meaning.8),
            );
            let inner = |a: ModelOf<A8::Fruit>, b: ModelOf<A8::Fruit>|
                A8::merged(meaning.7, a, b);
            let part = A8::contributions(meaning.7, doc, score);
            lemma_folded_through(inner, outer, put, lift, before.7, part);
            assert(put(before.7) == before);
            assert(output.model() == put(folded(inner, before.7, part)));
            lemma_folded_parts(outer, start, done, part.map_values(lift));
            done = done + part.map_values(lift);
        }
        let ghost before = output.model();
        self.8.collect(doc, score, &mut output.8);
        proof {
            let put = |x: ModelOf<A9::Fruit>| (
                before.0,
                before.1,
                before.2,
                before.3,
                before.4,
                before.5,
                before.6,
                before.7,
                x,
            );
            let lift = |d: ModelOf<A9::Fruit>| (
                A1::empty(meaning.0),
                A2::empty(meaning.1),
                A3::empty(meaning.2),
                A4::empty(meaning.3),
                A5::empty(meaning.4),
                A6::empty(meaning.5),
                A7::empty(meaning.6),
                A8::empty(meaning.7),
                d,
            );
            let inner = |a: ModelOf<A9::Fruit>, b: ModelOf<A9::Fruit>|
                A9::merged(meaning.8, a, b);
            let part = A9::contributions(meaning.8, doc, score);
            lemma_folded_through(inner, outer, put, lift, before.8, part);
            assert(put(before.8) == before);
            assert(output.model() == put(folded(inner, before.8, part)));
            lemma_folded_parts(outer, start, done, part.map_values(lift));
            done = done + part.map_values(lift);
        }
        proof {
            assert(done =~= Self::contributions(meaning, doc, score));
        }
    }
}

impl<
    A1: FruitModel,
    A2: FruitModel,
    A3: FruitModel,
    A4: FruitModel,
    A5: FruitModel,
    A6: FruitModel,
    A7: FruitModel,
    A8: FruitModel,
    A9: FruitModel,
    A10: FruitModel,
> FruitModel for (A1, A2, A3, A4, A5, A6, A7, A8, A9, A10) {
    type Model = (
        A1::Model,
        A2::Model,
        A3::Model,
        A4::Model,
        A5::Model,
        A6::Model,
        A7::Model,
        A8::Model,
        A9::Model,
        A10::Model,
    );

    open spec fn model(&self) -> Self::Model {
        (
            self.0.model(),
            self.1.model(),
            self.2.model(),
            self.3.model(),
            self.4.model(),
            self.5.model(),
            self.6.model(),
            self.7.model(),
            self.8.model(),
            self.9.model(),
        )
    }
}

impl<
    A1: Agg,
    A2: Agg,
    A3: Agg,
    A4: Agg,
    A5: Agg,
    A6: Agg,
    A7: Agg,
    A8: Agg,
    A9: Agg,
    A10: Agg,
> Agg for (A1, A2, A3, A4, A5, A6, A7, A8, A9, A10) {
    type Fruit = (
        A1::Fruit,
        A2::Fruit,
        A3::Fruit,
        A4::Fruit,
        A5::Fruit,
        A6::Fruit,
        A7::Fruit,
        A8::Fruit,
        A9::Fruit,
        A10::Fruit,
    );

    type Child = (
        A1::Child,
        A2::Child,
        A3::Child,
        A4::Child,
        A5::Child,
        A6::Child,
        A7::Child,
        A8::Child,
        A9::Child,
        A10::Child,
    );

    open spec fn leaf_scoring(&self) -> Seq<bool> {
        self.0.leaf_scoring()
            + self.1.leaf_scoring()
            + self.2.leaf_scoring()
            + self.3.leaf_scoring()
            + self.4.leaf_scoring()
            + self.5.leaf_scoring()
            + self.6.leaf_scoring()
            + self.7.leaf_scoring()
            + self.8.leaf_scoring()
            + self.9.leaf_scoring()
    }

    open spec fn inv(&self) -> bool {
        self.0.inv()
            && self.1.inv()
            && self.2.inv()
            && self.3.inv()
            && self.4.inv()
            && self.5.inv()
            && self.6.inv()
            && self.7.inv()
            && self.8.inv()
            && self.9.inv()
    }

    open spec fn steady(&self) -> bool {
        self.0.steady()
            && self.1.steady()
            && self.2.steady()
            && self.3.steady()
            && self.4.steady()
            && self.5.steady()
            && self.6.steady()
            && self.7.steady()
            && self.8.steady()
            && self.9.steady()
    }

    open spec fn runs_on(&self, searcher: tantivy::Searcher) -> bool {
        self.0.runs_on(searcher)
            && self.1.runs_on(searcher)
            && self.2.runs_on(searcher)
            && self.3.runs_on(searcher)
            && self.4.runs_on(searcher)
            && self.5.runs_on(searcher)
            && self.6.runs_on(searcher)
            && self.7.runs_on(searcher)
            && self.8.runs_on(searcher)
            && self.9.runs_on(searcher)
    }

    open spec fn prepare_error(&self, searcher: tantivy::Searcher) -> Option<AggError> {
        if self.0.prepare_error(searcher) is Some {
            self.0.prepare_error(searcher)
        } else if self.1.prepare_error(searcher) is Some {
            self.1.prepare_error(searcher)
        } else if self.2.prepare_error(searcher) is Some {
            self.2.prepare_error(searcher)
        } else if self.3.prepare_error(searcher) is Some {
            self.3.prepare_error(searcher)
        } else if self.4.prepare_error(searcher) is Some {
            self.4.prepare_error(searcher)
        } else if self.5.prepare_error(searcher) is Some {
            self.5.prepare_error(searcher)
        } else if self.6.prepare_error(searcher) is Some {
            self.6.prepare_error(searcher)
        } else if self.7.prepare_error(searcher) is Some {
            self.7.prepare_error(searcher)
        } else if self.8.prepare_error(searcher) is Some {
            self.8.prepare_error(searcher)
        } else {
            self.9.prepare_error(searcher)
        }
    }

    open spec fn prepared_by(&self, searcher: tantivy::Searcher, prepared: Self::Child) -> bool {
        self.0.prepared_by(searcher, prepared.0)
            && self.1.prepared_by(searcher, prepared.1)
            && self.2.prepared_by(searcher, prepared.2)
            && self.3.prepared_by(searcher, prepared.3)
            && self.4.prepared_by(searcher, prepared.4)
            && self.5.prepared_by(searcher, prepared.5)
            && self.6.prepared_by(searcher, prepared.6)
            && self.7.prepared_by(searcher, prepared.7)
            && self.8.prepared_by(searcher, prepared.8)
            && self.9.prepared_by(searcher, prepared.9)
    }

    open spec fn prepares(&self, prepared: Self::Child) -> bool {
        self.0.prepares(prepared.0)
            && self.1.prepares(prepared.1)
            && self.2.prepares(prepared.2)
            && self.3.prepares(prepared.3)
            && self.4.prepares(prepared.4)
            && self.5.prepares(prepared.5)
            && self.6.prepares(prepared.6)
            && self.7.prepares(prepared.7)
            && self.8.prepares(prepared.8)
            && self.9.prepares(prepared.9)
    }

    fn prepare(&self, searcher: &tantivy::Searcher) -> (r: Result<Self::Child, AggError>) {
        let prepared0 = match self.0.prepare(searcher) {
            Ok(prepared) => prepared,
            Err(e) => {
                return Err(e);
            },
        };
        let prepared1 = match self.1.prepare(searcher) {
            Ok(prepared) => prepared,
            Err(e) => {
                return Err(e);
            },
        };
        let prepared2 = match self.2.prepare(searcher) {
            Ok(prepared) => prepared,
            Err(e) => {
                return Err(e);
            },
        };
        let prepared3 = match self.3.prepare(searcher) {
            Ok(prepared) => prepared,
            Err(e) => {
                return Err(e);
            },
        };
        let prepared4 = match self.4.prepare(searcher) {
            Ok(prepared) => prepared,
            Err(e) => {
                return Err(e);
            },
        };
        let prepared5 = match self.5.prepare(searcher) {
            Ok(prepared) => prepared,
            Err(e) => {
                return Err(e);
            },
        };
        let prepared6 = match self.6.prepare(searcher) {
            Ok(prepared) => prepared,
            Err(e) => {
                return Err(e);
            },
        };
        let prepared7 = match self.7.prepare(searcher) {
            Ok(prepared) => prepared,
            Err(e) => {
                return Err(e);
            },
        };
        let prepared8 = match self.8.prepare(searcher) {
            Ok(prepared) => prepared,
            Err(e) => {
                return Err(e);
            },
        };
        let prepared9 = match self.9.prepare(searcher) {
            Ok(prepared) => prepared,
            Err(e) => {
                return Err(e);
            },
        };
        Ok((
            prepared0,
            prepared1,
            prepared2,
            prepared3,
            prepared4,
            prepared5,
            prepared6,
            prepared7,
            prepared8,
            prepared9,
        ))
    }

    fn requires_scoring(&self) -> (scoring: bool) {
        let scoring0 = self.0.requires_scoring();
        let scoring1 = self.1.requires_scoring();
        let scoring2 = self.2.requires_scoring();
        let scoring3 = self.3.requires_scoring();
        let scoring4 = self.4.requires_scoring();
        let scoring5 = self.5.requires_scoring();
        let scoring6 = self.6.requires_scoring();
        let scoring7 = self.7.requires_scoring();
        let scoring8 = self.8.requires_scoring();
        let scoring9 = self.9.requires_scoring();
        proof {
            let mut seen = self.0.leaf_scoring();
            lemma_scoring_joins(seen, self.1.leaf_scoring());
            seen = seen + self.1.leaf_scoring();
            lemma_scoring_joins(seen, self.2.leaf_scoring());
            seen = seen + self.2.leaf_scoring();
            lemma_scoring_joins(seen, self.3.leaf_scoring());
            seen = seen + self.3.leaf_scoring();
            lemma_scoring_joins(seen, self.4.leaf_scoring());
            seen = seen + self.4.leaf_scoring();
            lemma_scoring_joins(seen, self.5.leaf_scoring());
            seen = seen + self.5.leaf_scoring();
            lemma_scoring_joins(seen, self.6.leaf_scoring());
            seen = seen + self.6.leaf_scoring();
            lemma_scoring_joins(seen, self.7.leaf_scoring());
            seen = seen + self.7.leaf_scoring();
            lemma_scoring_joins(seen, self.8.leaf_scoring());
            seen = seen + self.8.leaf_scoring();
            lemma_scoring_joins(seen, self.9.leaf_scoring());
            seen = seen + self.9.leaf_scoring();
        }
        scoring0
            || scoring1
            || scoring2
            || scoring3
            || scoring4
            || scoring5
            || scoring6
            || scoring7
            || scoring8
            || scoring9
    }
}

impl<
    A1: PreparedAgg,
    A2: PreparedAgg,
    A3: PreparedAgg,
    A4: PreparedAgg,
    A5: PreparedAgg,
    A6: PreparedAgg,
    A7: PreparedAgg,
    A8: PreparedAgg,
    A9: PreparedAgg,
    A10: PreparedAgg,
> PreparedAgg for (A1, A2, A3, A4, A5, A6, A7, A8, A9, A10) {
    type Fruit = (
        A1::Fruit,
        A2::Fruit,
        A3::Fruit,
        A4::Fruit,
        A5::Fruit,
        A6::Fruit,
        A7::Fruit,
        A8::Fruit,
        A9::Fruit,
        A10::Fruit,
    );

    type Child = (
        A1::Child,
        A2::Child,
        A3::Child,
        A4::Child,
        A5::Child,
        A6::Child,
        A7::Child,
        A8::Child,
        A9::Child,
        A10::Child,
    );

    open spec fn inv(&self) -> bool {
        self.0.inv()
            && self.1.inv()
            && self.2.inv()
            && self.3.inv()
            && self.4.inv()
            && self.5.inv()
            && self.6.inv()
            && self.7.inv()
            && self.8.inv()
            && self.9.inv()
    }

    open spec fn fruit_ok(&self, fruit: ModelOf<Self::Fruit>) -> bool {
        self.0.fruit_ok(fruit.0)
            && self.1.fruit_ok(fruit.1)
            && self.2.fruit_ok(fruit.2)
            && self.3.fruit_ok(fruit.3)
            && self.4.fruit_ok(fruit.4)
            && self.5.fruit_ok(fruit.5)
            && self.6.fruit_ok(fruit.6)
            && self.7.fruit_ok(fruit.7)
            && self.8.fruit_ok(fruit.8)
            && self.9.fruit_ok(fruit.9)
    }

    open spec fn empty(&self) -> ModelOf<Self::Fruit> {
        (
            self.0.empty(),
            self.1.empty(),
            self.2.empty(),
            self.3.empty(),
            self.4.empty(),
            self.5.empty(),
            self.6.empty(),
            self.7.empty(),
            self.8.empty(),
            self.9.empty(),
        )
    }

    open spec fn merged(&self, a: ModelOf<Self::Fruit>, b: ModelOf<Self::Fruit>) -> ModelOf<Self::Fruit>
    {
        (
            self.0.merged(a.0, b.0),
            self.1.merged(a.1, b.1),
            self.2.merged(a.2, b.2),
            self.3.merged(a.3, b.3),
            self.4.merged(a.4, b.4),
            self.5.merged(a.5, b.5),
            self.6.merged(a.6, b.6),
            self.7.merged(a.7, b.7),
            self.8.merged(a.8, b.8),
            self.9.merged(a.9, b.9),
        )
    }

    open spec fn fits(&self, a: ModelOf<Self::Fruit>, b: ModelOf<Self::Fruit>) -> bool {
        self.0.fits(a.0, b.0)
            && self.1.fits(a.1, b.1)
            && self.2.fits(a.2, b.2)
            && self.3.fits(a.3, b.3)
            && self.4.fits(a.4, b.4)
            && self.5.fits(a.5, b.5)
            && self.6.fits(a.6, b.6)
            && self.7.fits(a.7, b.7)
            && self.8.fits(a.8, b.8)
            && self.9.fits(a.9, b.9)
    }

    open spec fn spawns(&self, meaning: <Self::Child as SegmentAgg>::Meaning) -> bool {
        self.0.spawns(meaning.0)
            && self.1.spawns(meaning.1)
            && self.2.spawns(meaning.2)
            && self.3.spawns(meaning.3)
            && self.4.spawns(meaning.4)
            && self.5.spawns(meaning.5)
            && self.6.spawns(meaning.6)
            && self.7.spawns(meaning.7)
            && self.8.spawns(meaning.8)
            && self.9.spawns(meaning.9)
    }

    open spec fn runs_on(&self, reader: tantivy::SegmentReader) -> bool {
        self.0.runs_on(reader)
            && self.1.runs_on(reader)
            && self.2.runs_on(reader)
            && self.3.runs_on(reader)
            && self.4.runs_on(reader)
            && self.5.runs_on(reader)
            && self.6.runs_on(reader)
            && self.7.runs_on(reader)
            && self.8.runs_on(reader)
            && self.9.runs_on(reader)
    }

    open spec fn meaning_on(&self, ctx: AggSegmentContext) -> Result<
        <Self::Child as SegmentAgg>::Meaning,
        AggError,
    > {
        if self.0.meaning_on(ctx) is Err {
            Err(self.0.meaning_on(ctx)->Err_0)
        } else if self.1.meaning_on(ctx) is Err {
            Err(self.1.meaning_on(ctx)->Err_0)
        } else if self.2.meaning_on(ctx) is Err {
            Err(self.2.meaning_on(ctx)->Err_0)
        } else if self.3.meaning_on(ctx) is Err {
            Err(self.3.meaning_on(ctx)->Err_0)
        } else if self.4.meaning_on(ctx) is Err {
            Err(self.4.meaning_on(ctx)->Err_0)
        } else if self.5.meaning_on(ctx) is Err {
            Err(self.5.meaning_on(ctx)->Err_0)
        } else if self.6.meaning_on(ctx) is Err {
            Err(self.6.meaning_on(ctx)->Err_0)
        } else if self.7.meaning_on(ctx) is Err {
            Err(self.7.meaning_on(ctx)->Err_0)
        } else if self.8.meaning_on(ctx) is Err {
            Err(self.8.meaning_on(ctx)->Err_0)
        } else if self.9.meaning_on(ctx) is Err {
            Err(self.9.meaning_on(ctx)->Err_0)
        } else {
            Ok((
                self.0.meaning_on(ctx)->Ok_0,
                self.1.meaning_on(ctx)->Ok_0,
                self.2.meaning_on(ctx)->Ok_0,
                self.3.meaning_on(ctx)->Ok_0,
                self.4.meaning_on(ctx)->Ok_0,
                self.5.meaning_on(ctx)->Ok_0,
                self.6.meaning_on(ctx)->Ok_0,
                self.7.meaning_on(ctx)->Ok_0,
                self.8.meaning_on(ctx)->Ok_0,
                self.9.meaning_on(ctx)->Ok_0,
            ))
        }
    }

    open spec fn steady(&self) -> bool {
        self.0.steady()
            && self.1.steady()
            && self.2.steady()
            && self.3.steady()
            && self.4.steady()
            && self.5.steady()
            && self.6.steady()
            && self.7.steady()
            && self.8.steady()
            && self.9.steady()
    }

    fn create_fruit(&self) -> (fruit: Self::Fruit) {
        (
            self.0.create_fruit(),
            self.1.create_fruit(),
            self.2.create_fruit(),
            self.3.create_fruit(),
            self.4.create_fruit(),
            self.5.create_fruit(),
            self.6.create_fruit(),
            self.7.create_fruit(),
            self.8.create_fruit(),
            self.9.create_fruit(),
        )
    }

    fn for_segment(&self, ctx: &AggSegmentContext) -> (r: Result<Self::Child, AggError>) {
        let child0 = match self.0.for_segment(ctx) {
            Ok(child) => child,
            Err(e) => {
                return Err(e);
            },
        };
        let child1 = match self.1.for_segment(ctx) {
            Ok(child) => child,
            Err(e) => {
                return Err(e);
            },
        };
        let child2 = match self.2.for_segment(ctx) {
            Ok(child) => child,
            Err(e) => {
                return Err(e);
            },
        };
        let child3 = match self.3.for_segment(ctx) {
            Ok(child) => child,
            Err(e) => {
                return Err(e);
            },
        };
        let child4 = match self.4.for_segment(ctx) {
            Ok(child) => child,
            Err(e) => {
                return Err(e);
            },
        };
        let child5 = match self.5.for_segment(ctx) {
            Ok(child) => child,
            Err(e) => {
                return Err(e);
            },
        };
        let child6 = match self.6.for_segment(ctx) {
            Ok(child) => child,
            Err(e) => {
                return Err(e);
            },
        };
        let child7 = match self.7.for_segment(ctx) {
            Ok(child) => child,
            Err(e) => {
                return Err(e);
            },
        };
        let child8 = match self.8.for_segment(ctx) {
            Ok(child) => child,
            Err(e) => {
                return Err(e);
            },
        };
        let child9 = match self.9.for_segment(ctx) {
            Ok(child) => child,
            Err(e) => {
                return Err(e);
            },
        };
        Ok((child0, child1, child2, child3, child4, child5, child6, child7, child8, child9))
    }

    fn merge(&self, acc: &mut Self::Fruit, fruit: Self::Fruit) {
        let (
            fruit0,
            fruit1,
            fruit2,
            fruit3,
            fruit4,
            fruit5,
            fruit6,
            fruit7,
            fruit8,
            fruit9,
        ) = fruit;
        self.0.merge(&mut acc.0, fruit0);
        self.1.merge(&mut acc.1, fruit1);
        self.2.merge(&mut acc.2, fruit2);
        self.3.merge(&mut acc.3, fruit3);
        self.4.merge(&mut acc.4, fruit4);
        self.5.merge(&mut acc.5, fruit5);
        self.6.merge(&mut acc.6, fruit6);
        self.7.merge(&mut acc.7, fruit7);
        self.8.merge(&mut acc.8, fruit8);
        self.9.merge(&mut acc.9, fruit9);
    }

    proof fn law_identity(&self, a: ModelOf<Self::Fruit>) {
        self.0.law_identity(a.0);
        self.1.law_identity(a.1);
        self.2.law_identity(a.2);
        self.3.law_identity(a.3);
        self.4.law_identity(a.4);
        self.5.law_identity(a.5);
        self.6.law_identity(a.6);
        self.7.law_identity(a.7);
        self.8.law_identity(a.8);
        self.9.law_identity(a.9);
    }

    proof fn law_commutative(&self, a: ModelOf<Self::Fruit>, b: ModelOf<Self::Fruit>) {
        self.0.law_commutative(a.0, b.0);
        self.1.law_commutative(a.1, b.1);
        self.2.law_commutative(a.2, b.2);
        self.3.law_commutative(a.3, b.3);
        self.4.law_commutative(a.4, b.4);
        self.5.law_commutative(a.5, b.5);
        self.6.law_commutative(a.6, b.6);
        self.7.law_commutative(a.7, b.7);
        self.8.law_commutative(a.8, b.8);
        self.9.law_commutative(a.9, b.9);
    }

    proof fn law_associative(
        &self,
        a: ModelOf<Self::Fruit>,
        b: ModelOf<Self::Fruit>,
        c: ModelOf<Self::Fruit>,
    ) {
        self.0.law_associative(a.0, b.0, c.0);
        self.1.law_associative(a.1, b.1, c.1);
        self.2.law_associative(a.2, b.2, c.2);
        self.3.law_associative(a.3, b.3, c.3);
        self.4.law_associative(a.4, b.4, c.4);
        self.5.law_associative(a.5, b.5, c.5);
        self.6.law_associative(a.6, b.6, c.6);
        self.7.law_associative(a.7, b.7, c.7);
        self.8.law_associative(a.8, b.8, c.8);
        self.9.law_associative(a.9, b.9, c.9);
    }

    proof fn law_child(&self, meaning: <Self::Child as SegmentAgg>::Meaning) {
        self.0.law_child(meaning.0);
        self.0.law_identity(self.0.empty());
        self.1.law_child(meaning.1);
        self.1.law_identity(self.1.empty());
        self.2.law_child(meaning.2);
        self.2.law_identity(self.2.empty());
        self.3.law_child(meaning.3);
        self.3.law_identity(self.3.empty());
        self.4.law_child(meaning.4);
        self.4.law_identity(self.4.empty());
        self.5.law_child(meaning.5);
        self.5.law_identity(self.5.empty());
        self.6.law_child(meaning.6);
        self.6.law_identity(self.6.empty());
        self.7.law_child(meaning.7);
        self.7.law_identity(self.7.empty());
        self.8.law_child(meaning.8);
        self.8.law_identity(self.8.empty());
        self.9.law_child(meaning.9);
        self.9.law_identity(self.9.empty());
        assert forall|a: ModelOf<Self::Fruit>, b: ModelOf<Self::Fruit>| #[trigger]
            Self::Child::merged(meaning, a, b) == self.merged(a, b) by {
            assert(A1::Child::merged(meaning.0, a.0, b.0) == self.0.merged(a.0, b.0));
            assert(A2::Child::merged(meaning.1, a.1, b.1) == self.1.merged(a.1, b.1));
            assert(A3::Child::merged(meaning.2, a.2, b.2) == self.2.merged(a.2, b.2));
            assert(A4::Child::merged(meaning.3, a.3, b.3) == self.3.merged(a.3, b.3));
            assert(A5::Child::merged(meaning.4, a.4, b.4) == self.4.merged(a.4, b.4));
            assert(A6::Child::merged(meaning.5, a.5, b.5) == self.5.merged(a.5, b.5));
            assert(A7::Child::merged(meaning.6, a.6, b.6) == self.6.merged(a.6, b.6));
            assert(A8::Child::merged(meaning.7, a.7, b.7) == self.7.merged(a.7, b.7));
            assert(A9::Child::merged(meaning.8, a.8, b.8) == self.8.merged(a.8, b.8));
            assert(A10::Child::merged(meaning.9, a.9, b.9) == self.9.merged(a.9, b.9));
        }
        assert forall|a: ModelOf<Self::Fruit>| #[trigger]
            Self::Child::fruit_ok(meaning, a) == self.fruit_ok(a) by {
            assert(A1::Child::fruit_ok(meaning.0, a.0) == self.0.fruit_ok(a.0));
            assert(A2::Child::fruit_ok(meaning.1, a.1) == self.1.fruit_ok(a.1));
            assert(A3::Child::fruit_ok(meaning.2, a.2) == self.2.fruit_ok(a.2));
            assert(A4::Child::fruit_ok(meaning.3, a.3) == self.3.fruit_ok(a.3));
            assert(A5::Child::fruit_ok(meaning.4, a.4) == self.4.fruit_ok(a.4));
            assert(A6::Child::fruit_ok(meaning.5, a.5) == self.5.fruit_ok(a.5));
            assert(A7::Child::fruit_ok(meaning.6, a.6) == self.6.fruit_ok(a.6));
            assert(A8::Child::fruit_ok(meaning.7, a.7) == self.7.fruit_ok(a.7));
            assert(A9::Child::fruit_ok(meaning.8, a.8) == self.8.fruit_ok(a.8));
            assert(A10::Child::fruit_ok(meaning.9, a.9) == self.9.fruit_ok(a.9));
        }
        assert forall|doc: DocId, score: ScoreBits, i: int|
            0 <= i < Self::Child::contributions(meaning, doc, score).len() implies self.fruit_ok(
            #[trigger] Self::Child::contributions(meaning, doc, score)[i],
        ) by {
            let ok = |f: ModelOf<Self::Fruit>| self.fruit_ok(f);
            let part0 = A1::Child::contributions(meaning.0, doc, score).map_values(
                |d: ModelOf<A1::Fruit>| (
                    d,
                    A2::Child::empty(meaning.1),
                    A3::Child::empty(meaning.2),
                    A4::Child::empty(meaning.3),
                    A5::Child::empty(meaning.4),
                    A6::Child::empty(meaning.5),
                    A7::Child::empty(meaning.6),
                    A8::Child::empty(meaning.7),
                    A9::Child::empty(meaning.8),
                    A10::Child::empty(meaning.9),
                ),
            );
            assert forall|j: int| 0 <= j < part0.len() implies ok(#[trigger] part0[j]) by {
                assert(self.0.fruit_ok(A1::Child::contributions(meaning.0, doc, score)[j]));
            }
            let part1 = A2::Child::contributions(meaning.1, doc, score).map_values(
                |d: ModelOf<A2::Fruit>| (
                    A1::Child::empty(meaning.0),
                    d,
                    A3::Child::empty(meaning.2),
                    A4::Child::empty(meaning.3),
                    A5::Child::empty(meaning.4),
                    A6::Child::empty(meaning.5),
                    A7::Child::empty(meaning.6),
                    A8::Child::empty(meaning.7),
                    A9::Child::empty(meaning.8),
                    A10::Child::empty(meaning.9),
                ),
            );
            assert forall|j: int| 0 <= j < part1.len() implies ok(#[trigger] part1[j]) by {
                assert(self.1.fruit_ok(A2::Child::contributions(meaning.1, doc, score)[j]));
            }
            let part2 = A3::Child::contributions(meaning.2, doc, score).map_values(
                |d: ModelOf<A3::Fruit>| (
                    A1::Child::empty(meaning.0),
                    A2::Child::empty(meaning.1),
                    d,
                    A4::Child::empty(meaning.3),
                    A5::Child::empty(meaning.4),
                    A6::Child::empty(meaning.5),
                    A7::Child::empty(meaning.6),
                    A8::Child::empty(meaning.7),
                    A9::Child::empty(meaning.8),
                    A10::Child::empty(meaning.9),
                ),
            );
            assert forall|j: int| 0 <= j < part2.len() implies ok(#[trigger] part2[j]) by {
                assert(self.2.fruit_ok(A3::Child::contributions(meaning.2, doc, score)[j]));
            }
            let part3 = A4::Child::contributions(meaning.3, doc, score).map_values(
                |d: ModelOf<A4::Fruit>| (
                    A1::Child::empty(meaning.0),
                    A2::Child::empty(meaning.1),
                    A3::Child::empty(meaning.2),
                    d,
                    A5::Child::empty(meaning.4),
                    A6::Child::empty(meaning.5),
                    A7::Child::empty(meaning.6),
                    A8::Child::empty(meaning.7),
                    A9::Child::empty(meaning.8),
                    A10::Child::empty(meaning.9),
                ),
            );
            assert forall|j: int| 0 <= j < part3.len() implies ok(#[trigger] part3[j]) by {
                assert(self.3.fruit_ok(A4::Child::contributions(meaning.3, doc, score)[j]));
            }
            let part4 = A5::Child::contributions(meaning.4, doc, score).map_values(
                |d: ModelOf<A5::Fruit>| (
                    A1::Child::empty(meaning.0),
                    A2::Child::empty(meaning.1),
                    A3::Child::empty(meaning.2),
                    A4::Child::empty(meaning.3),
                    d,
                    A6::Child::empty(meaning.5),
                    A7::Child::empty(meaning.6),
                    A8::Child::empty(meaning.7),
                    A9::Child::empty(meaning.8),
                    A10::Child::empty(meaning.9),
                ),
            );
            assert forall|j: int| 0 <= j < part4.len() implies ok(#[trigger] part4[j]) by {
                assert(self.4.fruit_ok(A5::Child::contributions(meaning.4, doc, score)[j]));
            }
            let part5 = A6::Child::contributions(meaning.5, doc, score).map_values(
                |d: ModelOf<A6::Fruit>| (
                    A1::Child::empty(meaning.0),
                    A2::Child::empty(meaning.1),
                    A3::Child::empty(meaning.2),
                    A4::Child::empty(meaning.3),
                    A5::Child::empty(meaning.4),
                    d,
                    A7::Child::empty(meaning.6),
                    A8::Child::empty(meaning.7),
                    A9::Child::empty(meaning.8),
                    A10::Child::empty(meaning.9),
                ),
            );
            assert forall|j: int| 0 <= j < part5.len() implies ok(#[trigger] part5[j]) by {
                assert(self.5.fruit_ok(A6::Child::contributions(meaning.5, doc, score)[j]));
            }
            let part6 = A7::Child::contributions(meaning.6, doc, score).map_values(
                |d: ModelOf<A7::Fruit>| (
                    A1::Child::empty(meaning.0),
                    A2::Child::empty(meaning.1),
                    A3::Child::empty(meaning.2),
                    A4::Child::empty(meaning.3),
                    A5::Child::empty(meaning.4),
                    A6::Child::empty(meaning.5),
                    d,
                    A8::Child::empty(meaning.7),
                    A9::Child::empty(meaning.8),
                    A10::Child::empty(meaning.9),
                ),
            );
            assert forall|j: int| 0 <= j < part6.len() implies ok(#[trigger] part6[j]) by {
                assert(self.6.fruit_ok(A7::Child::contributions(meaning.6, doc, score)[j]));
            }
            let part7 = A8::Child::contributions(meaning.7, doc, score).map_values(
                |d: ModelOf<A8::Fruit>| (
                    A1::Child::empty(meaning.0),
                    A2::Child::empty(meaning.1),
                    A3::Child::empty(meaning.2),
                    A4::Child::empty(meaning.3),
                    A5::Child::empty(meaning.4),
                    A6::Child::empty(meaning.5),
                    A7::Child::empty(meaning.6),
                    d,
                    A9::Child::empty(meaning.8),
                    A10::Child::empty(meaning.9),
                ),
            );
            assert forall|j: int| 0 <= j < part7.len() implies ok(#[trigger] part7[j]) by {
                assert(self.7.fruit_ok(A8::Child::contributions(meaning.7, doc, score)[j]));
            }
            let part8 = A9::Child::contributions(meaning.8, doc, score).map_values(
                |d: ModelOf<A9::Fruit>| (
                    A1::Child::empty(meaning.0),
                    A2::Child::empty(meaning.1),
                    A3::Child::empty(meaning.2),
                    A4::Child::empty(meaning.3),
                    A5::Child::empty(meaning.4),
                    A6::Child::empty(meaning.5),
                    A7::Child::empty(meaning.6),
                    A8::Child::empty(meaning.7),
                    d,
                    A10::Child::empty(meaning.9),
                ),
            );
            assert forall|j: int| 0 <= j < part8.len() implies ok(#[trigger] part8[j]) by {
                assert(self.8.fruit_ok(A9::Child::contributions(meaning.8, doc, score)[j]));
            }
            let part9 = A10::Child::contributions(meaning.9, doc, score).map_values(
                |d: ModelOf<A10::Fruit>| (
                    A1::Child::empty(meaning.0),
                    A2::Child::empty(meaning.1),
                    A3::Child::empty(meaning.2),
                    A4::Child::empty(meaning.3),
                    A5::Child::empty(meaning.4),
                    A6::Child::empty(meaning.5),
                    A7::Child::empty(meaning.6),
                    A8::Child::empty(meaning.7),
                    A9::Child::empty(meaning.8),
                    d,
                ),
            );
            assert forall|j: int| 0 <= j < part9.len() implies ok(#[trigger] part9[j]) by {
                assert(self.9.fruit_ok(A10::Child::contributions(meaning.9, doc, score)[j]));
            }
            lemma_all_joined(ok, part0, part1);
            lemma_all_joined(ok, part0 + part1, part2);
            lemma_all_joined(ok, part0 + part1 + part2, part3);
            lemma_all_joined(ok, part0 + part1 + part2 + part3, part4);
            lemma_all_joined(ok, part0 + part1 + part2 + part3 + part4, part5);
            lemma_all_joined(ok, part0 + part1 + part2 + part3 + part4 + part5, part6);
            lemma_all_joined(ok, part0 + part1 + part2 + part3 + part4 + part5 + part6, part7);
            lemma_all_joined(ok, part0 + part1 + part2 + part3 + part4 + part5 + part6 + part7, part8);
            lemma_all_joined(ok, part0 + part1 + part2 + part3 + part4 + part5 + part6 + part7 + part8, part9);
        }
    }
}

impl<
    A1: SegmentAgg,
    A2: SegmentAgg,
    A3: SegmentAgg,
    A4: SegmentAgg,
    A5: SegmentAgg,
    A6: SegmentAgg,
    A7: SegmentAgg,
    A8: SegmentAgg,
    A9: SegmentAgg,
    A10: SegmentAgg,
> SegmentAgg for (A1, A2, A3, A4, A5, A6, A7, A8, A9, A10) {
    type Fruit = (
        A1::Fruit,
        A2::Fruit,
        A3::Fruit,
        A4::Fruit,
        A5::Fruit,
        A6::Fruit,
        A7::Fruit,
        A8::Fruit,
        A9::Fruit,
        A10::Fruit,
    );

    type Meaning = (
        A1::Meaning,
        A2::Meaning,
        A3::Meaning,
        A4::Meaning,
        A5::Meaning,
        A6::Meaning,
        A7::Meaning,
        A8::Meaning,
        A9::Meaning,
        A10::Meaning,
    );

    open spec fn meaning(&self) -> Self::Meaning {
        (
            self.0.meaning(),
            self.1.meaning(),
            self.2.meaning(),
            self.3.meaning(),
            self.4.meaning(),
            self.5.meaning(),
            self.6.meaning(),
            self.7.meaning(),
            self.8.meaning(),
            self.9.meaning(),
        )
    }

    open spec fn inv(&self) -> bool {
        self.0.inv()
            && self.1.inv()
            && self.2.inv()
            && self.3.inv()
            && self.4.inv()
            && self.5.inv()
            && self.6.inv()
            && self.7.inv()
            && self.8.inv()
            && self.9.inv()
    }

    open spec fn frontier(&self) -> nat {
        let front = self.0.frontier();
        let front = highest(front, self.1.frontier());
        let front = highest(front, self.2.frontier());
        let front = highest(front, self.3.frontier());
        let front = highest(front, self.4.frontier());
        let front = highest(front, self.5.frontier());
        let front = highest(front, self.6.frontier());
        let front = highest(front, self.7.frontier());
        let front = highest(front, self.8.frontier());
        let front = highest(front, self.9.frontier());
        front
    }

    open spec fn doc_limit(meaning: Self::Meaning) -> nat {
        let limit = A1::doc_limit(meaning.0);
        let limit = lowest(limit, A2::doc_limit(meaning.1));
        let limit = lowest(limit, A3::doc_limit(meaning.2));
        let limit = lowest(limit, A4::doc_limit(meaning.3));
        let limit = lowest(limit, A5::doc_limit(meaning.4));
        let limit = lowest(limit, A6::doc_limit(meaning.5));
        let limit = lowest(limit, A7::doc_limit(meaning.6));
        let limit = lowest(limit, A8::doc_limit(meaning.7));
        let limit = lowest(limit, A9::doc_limit(meaning.8));
        let limit = lowest(limit, A10::doc_limit(meaning.9));
        limit
    }

    open spec fn fruit_ok(meaning: Self::Meaning, fruit: ModelOf<Self::Fruit>) -> bool {
        A1::fruit_ok(meaning.0, fruit.0)
            && A2::fruit_ok(meaning.1, fruit.1)
            && A3::fruit_ok(meaning.2, fruit.2)
            && A4::fruit_ok(meaning.3, fruit.3)
            && A5::fruit_ok(meaning.4, fruit.4)
            && A6::fruit_ok(meaning.5, fruit.5)
            && A7::fruit_ok(meaning.6, fruit.6)
            && A8::fruit_ok(meaning.7, fruit.7)
            && A9::fruit_ok(meaning.8, fruit.8)
            && A10::fruit_ok(meaning.9, fruit.9)
    }

    open spec fn empty(meaning: Self::Meaning) -> ModelOf<Self::Fruit> {
        (
            A1::empty(meaning.0),
            A2::empty(meaning.1),
            A3::empty(meaning.2),
            A4::empty(meaning.3),
            A5::empty(meaning.4),
            A6::empty(meaning.5),
            A7::empty(meaning.6),
            A8::empty(meaning.7),
            A9::empty(meaning.8),
            A10::empty(meaning.9),
        )
    }

    open spec fn merged(
        meaning: Self::Meaning,
        a: ModelOf<Self::Fruit>,
        b: ModelOf<Self::Fruit>,
    ) -> ModelOf<Self::Fruit> {
        (
            A1::merged(meaning.0, a.0, b.0),
            A2::merged(meaning.1, a.1, b.1),
            A3::merged(meaning.2, a.2, b.2),
            A4::merged(meaning.3, a.3, b.3),
            A5::merged(meaning.4, a.4, b.4),
            A6::merged(meaning.5, a.5, b.5),
            A7::merged(meaning.6, a.6, b.6),
            A8::merged(meaning.7, a.7, b.7),
            A9::merged(meaning.8, a.8, b.8),
            A10::merged(meaning.9, a.9, b.9),
        )
    }

    open spec fn contributions(meaning: Self::Meaning, doc: DocId, score: ScoreBits) -> Seq<
        ModelOf<Self::Fruit>,
    > {
        A1::contributions(meaning.0, doc, score).map_values(
                |d: ModelOf<A1::Fruit>| (
                    d,
                    A2::empty(meaning.1),
                    A3::empty(meaning.2),
                    A4::empty(meaning.3),
                    A5::empty(meaning.4),
                    A6::empty(meaning.5),
                    A7::empty(meaning.6),
                    A8::empty(meaning.7),
                    A9::empty(meaning.8),
                    A10::empty(meaning.9),
                ),
            )
            + A2::contributions(meaning.1, doc, score).map_values(
                |d: ModelOf<A2::Fruit>| (
                    A1::empty(meaning.0),
                    d,
                    A3::empty(meaning.2),
                    A4::empty(meaning.3),
                    A5::empty(meaning.4),
                    A6::empty(meaning.5),
                    A7::empty(meaning.6),
                    A8::empty(meaning.7),
                    A9::empty(meaning.8),
                    A10::empty(meaning.9),
                ),
            )
            + A3::contributions(meaning.2, doc, score).map_values(
                |d: ModelOf<A3::Fruit>| (
                    A1::empty(meaning.0),
                    A2::empty(meaning.1),
                    d,
                    A4::empty(meaning.3),
                    A5::empty(meaning.4),
                    A6::empty(meaning.5),
                    A7::empty(meaning.6),
                    A8::empty(meaning.7),
                    A9::empty(meaning.8),
                    A10::empty(meaning.9),
                ),
            )
            + A4::contributions(meaning.3, doc, score).map_values(
                |d: ModelOf<A4::Fruit>| (
                    A1::empty(meaning.0),
                    A2::empty(meaning.1),
                    A3::empty(meaning.2),
                    d,
                    A5::empty(meaning.4),
                    A6::empty(meaning.5),
                    A7::empty(meaning.6),
                    A8::empty(meaning.7),
                    A9::empty(meaning.8),
                    A10::empty(meaning.9),
                ),
            )
            + A5::contributions(meaning.4, doc, score).map_values(
                |d: ModelOf<A5::Fruit>| (
                    A1::empty(meaning.0),
                    A2::empty(meaning.1),
                    A3::empty(meaning.2),
                    A4::empty(meaning.3),
                    d,
                    A6::empty(meaning.5),
                    A7::empty(meaning.6),
                    A8::empty(meaning.7),
                    A9::empty(meaning.8),
                    A10::empty(meaning.9),
                ),
            )
            + A6::contributions(meaning.5, doc, score).map_values(
                |d: ModelOf<A6::Fruit>| (
                    A1::empty(meaning.0),
                    A2::empty(meaning.1),
                    A3::empty(meaning.2),
                    A4::empty(meaning.3),
                    A5::empty(meaning.4),
                    d,
                    A7::empty(meaning.6),
                    A8::empty(meaning.7),
                    A9::empty(meaning.8),
                    A10::empty(meaning.9),
                ),
            )
            + A7::contributions(meaning.6, doc, score).map_values(
                |d: ModelOf<A7::Fruit>| (
                    A1::empty(meaning.0),
                    A2::empty(meaning.1),
                    A3::empty(meaning.2),
                    A4::empty(meaning.3),
                    A5::empty(meaning.4),
                    A6::empty(meaning.5),
                    d,
                    A8::empty(meaning.7),
                    A9::empty(meaning.8),
                    A10::empty(meaning.9),
                ),
            )
            + A8::contributions(meaning.7, doc, score).map_values(
                |d: ModelOf<A8::Fruit>| (
                    A1::empty(meaning.0),
                    A2::empty(meaning.1),
                    A3::empty(meaning.2),
                    A4::empty(meaning.3),
                    A5::empty(meaning.4),
                    A6::empty(meaning.5),
                    A7::empty(meaning.6),
                    d,
                    A9::empty(meaning.8),
                    A10::empty(meaning.9),
                ),
            )
            + A9::contributions(meaning.8, doc, score).map_values(
                |d: ModelOf<A9::Fruit>| (
                    A1::empty(meaning.0),
                    A2::empty(meaning.1),
                    A3::empty(meaning.2),
                    A4::empty(meaning.3),
                    A5::empty(meaning.4),
                    A6::empty(meaning.5),
                    A7::empty(meaning.6),
                    A8::empty(meaning.7),
                    d,
                    A10::empty(meaning.9),
                ),
            )
            + A10::contributions(meaning.9, doc, score).map_values(
                |d: ModelOf<A10::Fruit>| (
                    A1::empty(meaning.0),
                    A2::empty(meaning.1),
                    A3::empty(meaning.2),
                    A4::empty(meaning.3),
                    A5::empty(meaning.4),
                    A6::empty(meaning.5),
                    A7::empty(meaning.6),
                    A8::empty(meaning.7),
                    A9::empty(meaning.8),
                    d,
                ),
            )
    }

    fn create_fruit(&self) -> (fruit: Self::Fruit) {
        (
            self.0.create_fruit(),
            self.1.create_fruit(),
            self.2.create_fruit(),
            self.3.create_fruit(),
            self.4.create_fruit(),
            self.5.create_fruit(),
            self.6.create_fruit(),
            self.7.create_fruit(),
            self.8.create_fruit(),
            self.9.create_fruit(),
        )
    }

    proof fn law_empty(meaning: Self::Meaning, a: ModelOf<Self::Fruit>) {
        A1::law_empty(meaning.0, a.0);
        A2::law_empty(meaning.1, a.1);
        A3::law_empty(meaning.2, a.2);
        A4::law_empty(meaning.3, a.3);
        A5::law_empty(meaning.4, a.4);
        A6::law_empty(meaning.5, a.5);
        A7::law_empty(meaning.6, a.6);
        A8::law_empty(meaning.7, a.7);
        A9::law_empty(meaning.8, a.8);
        A10::law_empty(meaning.9, a.9);
    }

    fn collect(&mut self, doc: DocId, score: ScoreBits, output: &mut Self::Fruit) {
        let ghost meaning = self.meaning();
        let ghost outer = |a: ModelOf<Self::Fruit>, b: ModelOf<Self::Fruit>|
            Self::merged(meaning, a, b);
        let ghost start = output.model();
        let ghost mut done: Seq<ModelOf<Self::Fruit>> = Seq::empty();
        proof {
            lemma_folded_one(outer, start, start);
            assert forall|c: ModelOf<A1::Fruit>| A1::fruit_ok(meaning.0, c) implies #[trigger]
                A1::merged(meaning.0, c, A1::empty(meaning.0)) == c by {
                A1::law_empty(meaning.0, c);
            }
            assert forall|c: ModelOf<A2::Fruit>| A2::fruit_ok(meaning.1, c) implies #[trigger]
                A2::merged(meaning.1, c, A2::empty(meaning.1)) == c by {
                A2::law_empty(meaning.1, c);
            }
            assert forall|c: ModelOf<A3::Fruit>| A3::fruit_ok(meaning.2, c) implies #[trigger]
                A3::merged(meaning.2, c, A3::empty(meaning.2)) == c by {
                A3::law_empty(meaning.2, c);
            }
            assert forall|c: ModelOf<A4::Fruit>| A4::fruit_ok(meaning.3, c) implies #[trigger]
                A4::merged(meaning.3, c, A4::empty(meaning.3)) == c by {
                A4::law_empty(meaning.3, c);
            }
            assert forall|c: ModelOf<A5::Fruit>| A5::fruit_ok(meaning.4, c) implies #[trigger]
                A5::merged(meaning.4, c, A5::empty(meaning.4)) == c by {
                A5::law_empty(meaning.4, c);
            }
            assert forall|c: ModelOf<A6::Fruit>| A6::fruit_ok(meaning.5, c) implies #[trigger]
                A6::merged(meaning.5, c, A6::empty(meaning.5)) == c by {
                A6::law_empty(meaning.5, c);
            }
            assert forall|c: ModelOf<A7::Fruit>| A7::fruit_ok(meaning.6, c) implies #[trigger]
                A7::merged(meaning.6, c, A7::empty(meaning.6)) == c by {
                A7::law_empty(meaning.6, c);
            }
            assert forall|c: ModelOf<A8::Fruit>| A8::fruit_ok(meaning.7, c) implies #[trigger]
                A8::merged(meaning.7, c, A8::empty(meaning.7)) == c by {
                A8::law_empty(meaning.7, c);
            }
            assert forall|c: ModelOf<A9::Fruit>| A9::fruit_ok(meaning.8, c) implies #[trigger]
                A9::merged(meaning.8, c, A9::empty(meaning.8)) == c by {
                A9::law_empty(meaning.8, c);
            }
            assert forall|c: ModelOf<A10::Fruit>| A10::fruit_ok(meaning.9, c) implies #[trigger]
                A10::merged(meaning.9, c, A10::empty(meaning.9)) == c by {
                A10::law_empty(meaning.9, c);
            }
        }
        let ghost before = output.model();
        self.0.collect(doc, score, &mut output.0);
        proof {
            let put = |x: ModelOf<A1::Fruit>| (
                x,
                before.1,
                before.2,
                before.3,
                before.4,
                before.5,
                before.6,
                before.7,
                before.8,
                before.9,
            );
            let lift = |d: ModelOf<A1::Fruit>| (
                d,
                A2::empty(meaning.1),
                A3::empty(meaning.2),
                A4::empty(meaning.3),
                A5::empty(meaning.4),
                A6::empty(meaning.5),
                A7::empty(meaning.6),
                A8::empty(meaning.7),
                A9::empty(meaning.8),
                A10::empty(meaning.9),
            );
            let inner = |a: ModelOf<A1::Fruit>, b: ModelOf<A1::Fruit>|
                A1::merged(meaning.0, a, b);
            let part = A1::contributions(meaning.0, doc, score);
            lemma_folded_through(inner, outer, put, lift, before.0, part);
            assert(put(before.0) == before);
            assert(output.model() == put(folded(inner, before.0, part)));
            lemma_folded_parts(outer, start, done, part.map_values(lift));
            done = done + part.map_values(lift);
        }
        let ghost before = output.model();
        self.1.collect(doc, score, &mut output.1);
        proof {
            let put = |x: ModelOf<A2::Fruit>| (
                before.0,
                x,
                before.2,
                before.3,
                before.4,
                before.5,
                before.6,
                before.7,
                before.8,
                before.9,
            );
            let lift = |d: ModelOf<A2::Fruit>| (
                A1::empty(meaning.0),
                d,
                A3::empty(meaning.2),
                A4::empty(meaning.3),
                A5::empty(meaning.4),
                A6::empty(meaning.5),
                A7::empty(meaning.6),
                A8::empty(meaning.7),
                A9::empty(meaning.8),
                A10::empty(meaning.9),
            );
            let inner = |a: ModelOf<A2::Fruit>, b: ModelOf<A2::Fruit>|
                A2::merged(meaning.1, a, b);
            let part = A2::contributions(meaning.1, doc, score);
            lemma_folded_through(inner, outer, put, lift, before.1, part);
            assert(put(before.1) == before);
            assert(output.model() == put(folded(inner, before.1, part)));
            lemma_folded_parts(outer, start, done, part.map_values(lift));
            done = done + part.map_values(lift);
        }
        let ghost before = output.model();
        self.2.collect(doc, score, &mut output.2);
        proof {
            let put = |x: ModelOf<A3::Fruit>| (
                before.0,
                before.1,
                x,
                before.3,
                before.4,
                before.5,
                before.6,
                before.7,
                before.8,
                before.9,
            );
            let lift = |d: ModelOf<A3::Fruit>| (
                A1::empty(meaning.0),
                A2::empty(meaning.1),
                d,
                A4::empty(meaning.3),
                A5::empty(meaning.4),
                A6::empty(meaning.5),
                A7::empty(meaning.6),
                A8::empty(meaning.7),
                A9::empty(meaning.8),
                A10::empty(meaning.9),
            );
            let inner = |a: ModelOf<A3::Fruit>, b: ModelOf<A3::Fruit>|
                A3::merged(meaning.2, a, b);
            let part = A3::contributions(meaning.2, doc, score);
            lemma_folded_through(inner, outer, put, lift, before.2, part);
            assert(put(before.2) == before);
            assert(output.model() == put(folded(inner, before.2, part)));
            lemma_folded_parts(outer, start, done, part.map_values(lift));
            done = done + part.map_values(lift);
        }
        let ghost before = output.model();
        self.3.collect(doc, score, &mut output.3);
        proof {
            let put = |x: ModelOf<A4::Fruit>| (
                before.0,
                before.1,
                before.2,
                x,
                before.4,
                before.5,
                before.6,
                before.7,
                before.8,
                before.9,
            );
            let lift = |d: ModelOf<A4::Fruit>| (
                A1::empty(meaning.0),
                A2::empty(meaning.1),
                A3::empty(meaning.2),
                d,
                A5::empty(meaning.4),
                A6::empty(meaning.5),
                A7::empty(meaning.6),
                A8::empty(meaning.7),
                A9::empty(meaning.8),
                A10::empty(meaning.9),
            );
            let inner = |a: ModelOf<A4::Fruit>, b: ModelOf<A4::Fruit>|
                A4::merged(meaning.3, a, b);
            let part = A4::contributions(meaning.3, doc, score);
            lemma_folded_through(inner, outer, put, lift, before.3, part);
            assert(put(before.3) == before);
            assert(output.model() == put(folded(inner, before.3, part)));
            lemma_folded_parts(outer, start, done, part.map_values(lift));
            done = done + part.map_values(lift);
        }
        let ghost before = output.model();
        self.4.collect(doc, score, &mut output.4);
        proof {
            let put = |x: ModelOf<A5::Fruit>| (
                before.0,
                before.1,
                before.2,
                before.3,
                x,
                before.5,
                before.6,
                before.7,
                before.8,
                before.9,
            );
            let lift = |d: ModelOf<A5::Fruit>| (
                A1::empty(meaning.0),
                A2::empty(meaning.1),
                A3::empty(meaning.2),
                A4::empty(meaning.3),
                d,
                A6::empty(meaning.5),
                A7::empty(meaning.6),
                A8::empty(meaning.7),
                A9::empty(meaning.8),
                A10::empty(meaning.9),
            );
            let inner = |a: ModelOf<A5::Fruit>, b: ModelOf<A5::Fruit>|
                A5::merged(meaning.4, a, b);
            let part = A5::contributions(meaning.4, doc, score);
            lemma_folded_through(inner, outer, put, lift, before.4, part);
            assert(put(before.4) == before);
            assert(output.model() == put(folded(inner, before.4, part)));
            lemma_folded_parts(outer, start, done, part.map_values(lift));
            done = done + part.map_values(lift);
        }
        let ghost before = output.model();
        self.5.collect(doc, score, &mut output.5);
        proof {
            let put = |x: ModelOf<A6::Fruit>| (
                before.0,
                before.1,
                before.2,
                before.3,
                before.4,
                x,
                before.6,
                before.7,
                before.8,
                before.9,
            );
            let lift = |d: ModelOf<A6::Fruit>| (
                A1::empty(meaning.0),
                A2::empty(meaning.1),
                A3::empty(meaning.2),
                A4::empty(meaning.3),
                A5::empty(meaning.4),
                d,
                A7::empty(meaning.6),
                A8::empty(meaning.7),
                A9::empty(meaning.8),
                A10::empty(meaning.9),
            );
            let inner = |a: ModelOf<A6::Fruit>, b: ModelOf<A6::Fruit>|
                A6::merged(meaning.5, a, b);
            let part = A6::contributions(meaning.5, doc, score);
            lemma_folded_through(inner, outer, put, lift, before.5, part);
            assert(put(before.5) == before);
            assert(output.model() == put(folded(inner, before.5, part)));
            lemma_folded_parts(outer, start, done, part.map_values(lift));
            done = done + part.map_values(lift);
        }
        let ghost before = output.model();
        self.6.collect(doc, score, &mut output.6);
        proof {
            let put = |x: ModelOf<A7::Fruit>| (
                before.0,
                before.1,
                before.2,
                before.3,
                before.4,
                before.5,
                x,
                before.7,
                before.8,
                before.9,
            );
            let lift = |d: ModelOf<A7::Fruit>| (
                A1::empty(meaning.0),
                A2::empty(meaning.1),
                A3::empty(meaning.2),
                A4::empty(meaning.3),
                A5::empty(meaning.4),
                A6::empty(meaning.5),
                d,
                A8::empty(meaning.7),
                A9::empty(meaning.8),
                A10::empty(meaning.9),
            );
            let inner = |a: ModelOf<A7::Fruit>, b: ModelOf<A7::Fruit>|
                A7::merged(meaning.6, a, b);
            let part = A7::contributions(meaning.6, doc, score);
            lemma_folded_through(inner, outer, put, lift, before.6, part);
            assert(put(before.6) == before);
            assert(output.model() == put(folded(inner, before.6, part)));
            lemma_folded_parts(outer, start, done, part.map_values(lift));
            done = done + part.map_values(lift);
        }
        let ghost before = output.model();
        self.7.collect(doc, score, &mut output.7);
        proof {
            let put = |x: ModelOf<A8::Fruit>| (
                before.0,
                before.1,
                before.2,
                before.3,
                before.4,
                before.5,
                before.6,
                x,
                before.8,
                before.9,
            );
            let lift = |d: ModelOf<A8::Fruit>| (
                A1::empty(meaning.0),
                A2::empty(meaning.1),
                A3::empty(meaning.2),
                A4::empty(meaning.3),
                A5::empty(meaning.4),
                A6::empty(meaning.5),
                A7::empty(meaning.6),
                d,
                A9::empty(meaning.8),
                A10::empty(meaning.9),
            );
            let inner = |a: ModelOf<A8::Fruit>, b: ModelOf<A8::Fruit>|
                A8::merged(meaning.7, a, b);
            let part = A8::contributions(meaning.7, doc, score);
            lemma_folded_through(inner, outer, put, lift, before.7, part);
            assert(put(before.7) == before);
            assert(output.model() == put(folded(inner, before.7, part)));
            lemma_folded_parts(outer, start, done, part.map_values(lift));
            done = done + part.map_values(lift);
        }
        let ghost before = output.model();
        self.8.collect(doc, score, &mut output.8);
        proof {
            let put = |x: ModelOf<A9::Fruit>| (
                before.0,
                before.1,
                before.2,
                before.3,
                before.4,
                before.5,
                before.6,
                before.7,
                x,
                before.9,
            );
            let lift = |d: ModelOf<A9::Fruit>| (
                A1::empty(meaning.0),
                A2::empty(meaning.1),
                A3::empty(meaning.2),
                A4::empty(meaning.3),
                A5::empty(meaning.4),
                A6::empty(meaning.5),
                A7::empty(meaning.6),
                A8::empty(meaning.7),
                d,
                A10::empty(meaning.9),
            );
            let inner = |a: ModelOf<A9::Fruit>, b: ModelOf<A9::Fruit>|
                A9::merged(meaning.8, a, b);
            let part = A9::contributions(meaning.8, doc, score);
            lemma_folded_through(inner, outer, put, lift, before.8, part);
            assert(put(before.8) == before);
            assert(output.model() == put(folded(inner, before.8, part)));
            lemma_folded_parts(outer, start, done, part.map_values(lift));
            done = done + part.map_values(lift);
        }
        let ghost before = output.model();
        self.9.collect(doc, score, &mut output.9);
        proof {
            let put = |x: ModelOf<A10::Fruit>| (
                before.0,
                before.1,
                before.2,
                before.3,
                before.4,
                before.5,
                before.6,
                before.7,
                before.8,
                x,
            );
            let lift = |d: ModelOf<A10::Fruit>| (
                A1::empty(meaning.0),
                A2::empty(meaning.1),
                A3::empty(meaning.2),
                A4::empty(meaning.3),
                A5::empty(meaning.4),
                A6::empty(meaning.5),
                A7::empty(meaning.6),
                A8::empty(meaning.7),
                A9::empty(meaning.8),
                d,
            );
            let inner = |a: ModelOf<A10::Fruit>, b: ModelOf<A10::Fruit>|
                A10::merged(meaning.9, a, b);
            let part = A10::contributions(meaning.9, doc, score);
            lemma_folded_through(inner, outer, put, lift, before.9, part);
            assert(put(before.9) == before);
            assert(output.model() == put(folded(inner, before.9, part)));
            lemma_folded_parts(outer, start, done, part.map_values(lift));
            done = done + part.map_values(lift);
        }
        proof {
            assert(done =~= Self::contributions(meaning, doc, score));
        }
    }
}
} // verus!
