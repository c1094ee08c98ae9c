use std::collections::HashSet;

use quantiles::ckms::CKMS;
use tantivy::chrono::{DateTime, TimeZone, Utc};
use tantivy::directory::RAMDirectory;
use tantivy::fastfield::FastFieldReader;
use tantivy::query::{AllQuery, Query, RangeQuery, TermQuery};
use tantivy::schema::{
    Cardinality, Field, IndexRecordOption, IntOptions, Schema, FAST, INDEXED, STORED,
};
use tantivy::{Document, Index, IndexReader, IndexWriter, Searcher, Term};

use tantivy_aggregations::agg::{Agg, AggError, AggSegmentContext, PreparedAgg};
use tantivy_aggregations::bucket::histogram::{histogram_agg, Histogram};
use tantivy_aggregations::bucket::terms::{
    filtered_terms_agg_i64s, filtered_terms_agg_u64, terms_agg_i64, terms_agg_u64,
    terms_agg_u64s, TermsAggResult,
};
use tantivy_aggregations::either::{either_agg, one_of_agg, Either};
use tantivy_aggregations::filter::filter_agg;
use tantivy_aggregations::index::{DocId, QueryRef, ScoreBits};
use tantivy_aggregations::metric::count::{count_agg, CountAgg};
use tantivy_aggregations::metric::fold::{fold_agg, Folded};
use tantivy_aggregations::metric::reduce::{
    max_agg_date, max_agg_dates, max_agg_i64, max_agg_i64s, max_agg_u64, max_agg_u64s,
    min_agg_date, min_agg_dates, min_agg_i64, min_agg_i64s, min_agg_u64, min_agg_u64s,
    sum_agg_i64, sum_agg_i64s, sum_agg_u64, sum_agg_u64s,
};
use tantivy_aggregations::post_filter::{
    post_filter_agg, post_filter_agg_i64, post_filter_agg_i64s, post_filter_agg_u64,
    post_filter_agg_u64s,
};
use tantivy_aggregations::searcher::{agg_search, collect_segment, merge_fruits, plan_search};

struct ProductSchema {
    schema: Schema,
    id: Field,
    category_id: Field,
    tag_ids: Field,
    price: Field,
    positive_opinion_percent: Field,
    date_created: Field,
}

fn product_schema() -> ProductSchema {
    let mut schema = Schema::builder();
    let id = schema.add_u64_field("id", INDEXED | STORED);
    let category_id = schema.add_u64_field("category_id", INDEXED | FAST);
    let tag_ids = schema.add_u64_field(
        "tag_ids",
        IntOptions::default().set_fast(Cardinality::MultiValues),
    );
    let price = schema.add_f64_field("price", INDEXED | FAST);
    let positive_opinion_percent = schema.add_u64_field("positive_opinion_percent", INDEXED | FAST);
    let _attr_facets = schema.add_u64_field(
        "attr_facets",
        IntOptions::default().set_indexed().set_fast(Cardinality::MultiValues),
    );
    let date_created = schema.add_date_field("date_created", INDEXED | FAST);
    ProductSchema {
        schema: schema.build(),
        id,
        category_id,
        tag_ids,
        price,
        positive_opinion_percent,
        date_created,
    }
}

struct ProductIndex {
    schema: ProductSchema,
    writer: IndexWriter,
    reader: IndexReader,
}

impl ProductIndex {
    fn create_in_ram(heap_size_in_megabytes: u16) -> ProductIndex {
        let dir = RAMDirectory::create();
        let schema = product_schema();
        let index = Index::create(dir, schema.schema.clone()).unwrap();
        let writer = index.writer(heap_size_in_megabytes as usize * 1_000_000).unwrap();
        let reader = index.reader().unwrap();
        ProductIndex { schema, writer, reader }
    }

    fn test_products(&self) -> Vec<Document> {
        let s = &self.schema;
        vec![
            product(s, 1, 1, &[111, 112, 211], 9.99, 82, Some("2019-12-31T23:59:59+00:00")),
            product(s, 2, 1, &[111, 211, 320], 10.0, 100, Some("2020-01-01T00:00:00+00:00")),
            product(s, 3, 2, &[211, 311], 0.5, 71, None),
            product(s, 4, 2, &[320], 50.0, 85, Some("2019-12-31T23:59:59+01:00")),
            product(s, 5, 2, &[311, 511], 100.01, 99, Some("2019-12-31T23:59:59-01:00")),
        ]
    }

    fn index_test_products(&mut self) {
        for doc in self.test_products() {
            self.writer.add_document(doc);
        }
        self.writer.commit().unwrap();
        self.reader.reload().unwrap();
    }

    /// One segment for each product.
    fn index_test_products_apart(&mut self) {
        for doc in self.test_products() {
            self.writer.add_document(doc);
            self.writer.commit().unwrap();
        }
        self.reader.reload().unwrap();
    }

    fn category_query(&self, category_id: u64) -> TermQuery {
        TermQuery::new(
            Term::from_field_u64(self.schema.category_id, category_id),
            IndexRecordOption::Basic,
        )
    }

    fn searcher(&self) -> tantivy::LeasedItem<Searcher> {
        self.reader.searcher()
    }
}

fn date(text: &str) -> DateTime<Utc> {
    DateTime::parse_from_rfc3339(text).unwrap().with_timezone(&Utc)
}

fn product(
    schema: &ProductSchema,
    id: u64,
    category: u64,
    tags: &[u64],
    price: f64,
    opinion: u64,
    created: Option<&str>,
) -> Document {
    let mut doc = Document::new();
    doc.add_u64(schema.id, id);
    doc.add_u64(schema.category_id, category);
    for tag in tags {
        doc.add_u64(schema.tag_ids, *tag);
    }
    doc.add_f64(schema.price, price);
    doc.add_u64(schema.positive_opinion_percent, opinion);
    if let Some(text) = created {
        doc.add_date(schema.date_created, &date(text));
    }
    doc
}

fn search_all<A: Agg>(searcher: &Searcher, agg: &A) -> A::Fruit {
    agg_search(searcher, &QueryRef { query: &AllQuery }, agg).ok().unwrap()
}

fn search<A: Agg>(searcher: &Searcher, query: &dyn Query, agg: &A) -> A::Fruit {
    agg_search(searcher, &QueryRef { query }, agg).ok().unwrap()
}

// Metrics over columns of floating-point numbers and of dates, described by
// functions.

fn keep_f64(acc: Option<f64>, v: f64, better: fn(f64, f64) -> bool) -> Option<f64> {
    if v.is_nan() {
        return acc;
    }
    match acc {
        Some(a) if !better(v, a) => Some(a),
        _ => Some(v),
    }
}

fn merge_f64(a: Option<f64>, b: Option<f64>, better: fn(f64, f64) -> bool) -> Option<f64> {
    match b {
        Some(v) => keep_f64(a, v, better),
        None => a,
    }
}

fn less(v: f64, a: f64) -> bool {
    v < a
}

fn more(v: f64, a: f64) -> bool {
    v > a
}

fn min_agg_f64(field: Field) -> impl Agg<Fruit = Folded<Option<f64>>> {
    fold_agg(
        move |ctx: &AggSegmentContext| ctx.reader.fast_fields().f64(field).ok_or(field),
        || None,
        |ff: &FastFieldReader<f64>, doc: DocId, _: ScoreBits, acc: Option<f64>| {
            keep_f64(acc, ff.get(doc), less)
        },
        |a: Option<f64>, b: Option<f64>| merge_f64(a, b, less),
        false,
    )
}

fn max_agg_f64(field: Field) -> impl Agg<Fruit = Folded<Option<f64>>> {
    fold_agg(
        move |ctx: &AggSegmentContext| ctx.reader.fast_fields().f64(field).ok_or(field),
        || None,
        |ff: &FastFieldReader<f64>, doc: DocId, _: ScoreBits, acc: Option<f64>| {
            keep_f64(acc, ff.get(doc), more)
        },
        |a: Option<f64>, b: Option<f64>| merge_f64(a, b, more),
        false,
    )
}

fn sum_agg_f64(field: Field) -> impl Agg<Fruit = Folded<Option<f64>>> {
    fold_agg(
        move |ctx: &AggSegmentContext| ctx.reader.fast_fields().f64(field).ok_or(field),
        || None,
        |ff: &FastFieldReader<f64>, doc: DocId, _: ScoreBits, acc: Option<f64>| {
            Some(acc.map(|a| a + ff.get(doc)).unwrap_or(ff.get(doc)))
        },
        |a: Option<f64>, b: Option<f64>| match (a, b) {
            (Some(x), Some(y)) => Some(x + y),
            (x, None) => x,
            (None, y) => y,
        },
        false,
    )
}

fn date_of(timestamp: Option<i64>) -> Option<DateTime<Utc>> {
    timestamp.map(|seconds| Utc.timestamp(seconds, 0))
}

fn percentiles_agg_f64(field: Field) -> impl Agg<Fruit = Folded<CKMS<f64>>> {
    fold_agg(
        move |ctx: &AggSegmentContext| ctx.reader.fast_fields().f64(field).ok_or(field),
        || CKMS::new(0.01_f64),
        |ff: &FastFieldReader<f64>, doc: DocId, _: ScoreBits, mut sketch: CKMS<f64>| {
            let v = ff.get(doc);
            if !v.is_nan() {
                sketch.insert(v);
            }
            sketch
        },
        |mut a: CKMS<f64>, b: CKMS<f64>| {
            for sample in b.into_vec() {
                a.insert(sample);
            }
            a
        },
        false,
    )
}

fn percentile(sketch: &Folded<CKMS<f64>>, q: f64) -> Option<f64> {
    sketch.0.query(q).map(|p| p.1)
}

fn histogram_agg_f64<SubAgg: Agg>(
    field: Field,
    start: f64,
    interval: f64,
    sub_agg: SubAgg,
) -> impl Agg<Fruit = Histogram<SubAgg::Fruit>> {
    histogram_agg(
        move |ctx: &AggSegmentContext| ctx.reader.fast_fields().f64(field).ok_or(field),
        move |ff: &FastFieldReader<f64>, doc: DocId| {
            let k = ff.get(doc);
            if k.is_nan() {
                return None;
            }
            let n = k - start;
            if n < 0.0 {
                return None;
            }
            Some((n / interval).floor() as u64)
        },
        start.to_bits(),
        interval.to_bits(),
        sub_agg,
    )
}

fn buckets<T>(hist: &Histogram<T>, start: f64, interval: f64) -> Vec<(f64, Option<&T>)> {
    assert_eq!(f64::from_bits(hist.start()), start);
    assert_eq!(f64::from_bits(hist.interval()), interval);
    hist.buckets()
        .into_iter()
        .map(|(ordinal, fruit)| (ordinal as f64 * interval + start, fruit))
        .collect()
}

#[test]
fn count_test_count() {
    let mut product_index = ProductIndex::create_in_ram(3);
    product_index.index_test_products();
    let searcher = product_index.searcher();

    let agg = count_agg();
    let count = search_all(&searcher, &agg);

    assert_eq!(count, 5);
}

#[test]
fn metric_test_count() {
    let mut product_index = ProductIndex::create_in_ram(3);
    product_index.index_test_products();
    let searcher = product_index.searcher();

    let agg: CountAgg = count_agg();
    let count = agg_search(&searcher, &QueryRef { query: &AllQuery }, &agg);

    assert_eq!(count.ok(), Some(5));
}

#[test]
fn minmax_test_min() {
    let mut product_index = ProductIndex::create_in_ram(3);
    product_index.index_test_products();
    let searcher = product_index.searcher();

    assert_eq!(
        search_all(&searcher, &min_agg_u64(product_index.schema.positive_opinion_percent)),
        Some(71_u64)
    );

    assert_eq!(
        date_of(search_all(&searcher, &min_agg_date(product_index.schema.date_created))),
        Some(date("1970-01-01T00:00:00+00:00"))
    );

    assert_eq!(
        search_all(&searcher, &min_agg_f64(product_index.schema.price)),
        Folded(Some(0.5_f64))
    );

    assert_eq!(
        search_all(&searcher, &min_agg_u64s(product_index.schema.tag_ids)),
        Some(111_u64)
    );
}

#[test]
fn metric_test_min() {
    let mut product_index = ProductIndex::create_in_ram(3);
    product_index.index_test_products();
    let searcher = product_index.searcher();
    let schema = &product_index.schema;

    assert_eq!(
        search_all(&searcher, &min_agg_u64(schema.positive_opinion_percent)),
        Some(71_u64)
    );

    assert_eq!(
        date_of(search_all(&searcher, &min_agg_date(schema.date_created))),
        Some(DateTime::parse_from_rfc3339("1970-01-01T00:00:00+00:00").unwrap().with_timezone(&Utc))
    );

    assert_eq!(search_all(&searcher, &min_agg_f64(schema.price)), Folded(Some(0.5_f64)));

    assert_eq!(search_all(&searcher, &min_agg_u64s(schema.tag_ids)), Some(111_u64));
}

#[test]
fn minmax_test_max() {
    let mut product_index = ProductIndex::create_in_ram(3);
    product_index.index_test_products();
    let searcher = product_index.searcher();

    assert_eq!(
        search_all(&searcher, &max_agg_f64(product_index.schema.price)),
        Folded(Some(100.01_f64))
    );

    assert_eq!(
        search_all(&searcher, &max_agg_u64(product_index.schema.positive_opinion_percent)),
        Some(100_u64)
    );

    assert_eq!(
        date_of(search_all(&searcher, &max_agg_date(product_index.schema.date_created))),
        Some(date("2020-01-01T00:59:59+00:00"))
    );

    assert_eq!(
        search_all(&searcher, &max_agg_u64s(product_index.schema.tag_ids)),
        Some(511_u64)
    );
}

#[test]
fn metric_test_max() {
    let mut product_index = ProductIndex::create_in_ram(3);
    product_index.index_test_products();
    let searcher = product_index.searcher();
    let schema = &product_index.schema;

    assert_eq!(search_all(&searcher, &max_agg_f64(schema.price)), Folded(Some(100.01_f64)));

    assert_eq!(
        search_all(&searcher, &max_agg_u64(schema.positive_opinion_percent)),
        Some(100_u64)
    );

    assert_eq!(
        date_of(search_all(&searcher, &max_agg_date(schema.date_created))),
        Some(DateTime::parse_from_rfc3339("2020-01-01T00:59:59+00:00").unwrap().with_timezone(&Utc))
    );

    assert_eq!(search_all(&searcher, &max_agg_u64s(schema.tag_ids)), Some(511_u64));
}

#[test]
fn test_sum() {
    let mut product_index = ProductIndex::create_in_ram(3);
    product_index.index_test_products();
    let searcher = product_index.searcher();

    assert_eq!(
        search_all(&searcher, &sum_agg_u64(product_index.schema.positive_opinion_percent)),
        Some(437_u64)
    );

    assert_eq!(
        search_all(&searcher, &sum_agg_f64(product_index.schema.price)),
        Folded(Some(170.5_f64))
    );

    assert_eq!(
        search_all(&searcher, &sum_agg_u64s(product_index.schema.tag_ids)),
        Some(2740_u64)
    );
}

#[test]
fn test_percentiles_agg() {
    let mut product_index = ProductIndex::create_in_ram(3);
    product_index.index_test_products();
    let searcher = product_index.searcher();

    let price_percentiles =
        search_all(&searcher, &percentiles_agg_f64(product_index.schema.price));
    assert_eq!(percentile(&price_percentiles, 0.5), Some(10.0));
    assert_eq!(percentile(&price_percentiles, 0.33), Some(9.99));
    assert_eq!(percentile(&price_percentiles, 0.7), Some(50.0));
    assert_eq!(percentile(&price_percentiles, 0.01), Some(0.5));
    assert_eq!(percentile(&price_percentiles, 0.99), Some(100.01));
}

#[test]
fn test_tuple() {
    let mut product_index = ProductIndex::create_in_ram(3);
    product_index.index_test_products();
    let searcher = product_index.searcher();

    assert_eq!(
        search_all(
            &searcher,
            &(
                count_agg(),
                min_agg_f64(product_index.schema.price),
                max_agg_f64(product_index.schema.price),
            )
        ),
        (5_u64, Folded(Some(0.5_f64)), Folded(Some(100.01_f64)))
    );
}

fn count_or_min_and_max_agg(
    min_max_field: Option<Field>,
) -> impl Agg<Fruit = Either<u64, (Folded<Option<f64>>, Folded<Option<f64>>)>> {
    // Both arms have to name the same two types, so the field of the left arm
    // is a stand-in that is never read.
    let field = min_max_field.unwrap_or(Field::from_field_id(0));
    either_agg(match min_max_field {
        Some(_) => Either::Right((min_agg_f64(field), max_agg_f64(field))),
        None => Either::Left(count_agg()),
    })
}

#[test]
fn test_either_agg() {
    let mut product_index = ProductIndex::create_in_ram(3);
    product_index.index_test_products();
    let searcher = product_index.searcher();

    assert_eq!(
        search_all(&searcher, &count_or_min_and_max_agg(None)),
        Either::Left(5_u64)
    );
    assert_eq!(
        search_all(&searcher, &count_or_min_and_max_agg(Some(product_index.schema.price))),
        Either::Right((Folded(Some(0.5)), Folded(Some(100.01))))
    );
}

fn count_with_filter<'q>(filter: Option<&'q dyn Query>) -> impl Agg<Fruit = u64> + 'q {
    one_of_agg(match filter {
        Some(f) => Either::Left(filter_agg(QueryRef { query: f }, count_agg())),
        None => Either::Right(count_agg()),
    })
}

#[test]
fn test_one_of_agg() {
    let mut product_index = ProductIndex::create_in_ram(3);
    product_index.index_test_products();
    let searcher = product_index.searcher();

    let category_filter = product_index.category_query(1_u64);
    assert_eq!(search_all(&searcher, &count_with_filter(None)), 5_u64);
    assert_eq!(
        search_all(&searcher, &count_with_filter(Some(&category_filter))),
        2_u64
    );
}

#[test]
fn test_filter_agg() {
    let mut product_index = ProductIndex::create_in_ram(3);
    product_index.index_test_products();
    let searcher = product_index.searcher();

    let filter_query = TermQuery::new(
        Term::from_field_u64(product_index.schema.category_id, 1_u64),
        IndexRecordOption::Basic,
    );
    let agg = filter_agg(QueryRef { query: &filter_query }, count_agg());
    let filtered_agg = search_all(&searcher, &agg);
    assert_eq!(filtered_agg, 2_u64);

    let filter_query = TermQuery::new(
        Term::from_field_u64(product_index.schema.category_id, 2_u64),
        IndexRecordOption::Basic,
    );
    let agg = filter_agg(QueryRef { query: &filter_query }, count_agg());
    let filtered_agg = search(
        &searcher,
        &RangeQuery::new_f64(product_index.schema.price, 100_f64..200_f64),
        &agg,
    );
    assert_eq!(filtered_agg, 1_u64);
}

#[test]
fn test_post_filter_agg_f64() {
    let mut product_index = ProductIndex::create_in_ram(3);
    product_index.index_test_products();
    let searcher = product_index.searcher();
    let price = product_index.schema.price;

    let min_price = 5.0;
    let count_min_price_agg = post_filter_agg(
        move |ctx: &AggSegmentContext| ctx.reader.fast_fields().f64(price).ok_or(price),
        move |ff: &FastFieldReader<f64>, doc: DocId, _: ScoreBits| ff.get(doc) > min_price,
        count_agg(),
    );
    assert_eq!(search_all(&searcher, &count_min_price_agg), 4);
}

#[test]
fn test_post_filter_agg_u64s() {
    let mut product_index = ProductIndex::create_in_ram(3);
    product_index.index_test_products();
    let searcher = product_index.searcher();

    let mut tags = HashSet::new();
    tags.insert(111_u64);
    tags.insert(211);
    tags.insert(311);
    let tags = &tags;
    let count_agg = post_filter_agg_u64s(
        product_index.schema.tag_ids,
        |tag_id| tags.contains(&tag_id),
        count_agg(),
    );
    assert_eq!(search_all(&searcher, &count_agg), 4);
}

#[test]
fn test_post_filter_agg() {
    let mut product_index = ProductIndex::create_in_ram(3);
    product_index.index_test_products();
    let searcher = product_index.searcher();
    let price = product_index.schema.price;
    let category = product_index.schema.category_id;

    let mut min_price = 5.0;
    let count_min_price_agg = post_filter_agg(
        move |ctx: &AggSegmentContext| ctx.reader.fast_fields().f64(price).ok_or(price),
        move |ff: &FastFieldReader<f64>, doc: DocId, _: ScoreBits| ff.get(doc) > min_price,
        count_agg(),
    );
    assert_eq!(search_all(&searcher, &count_min_price_agg), 4);

    min_price = 10.0;
    let category_id = 1_u64;
    let count_min_price_agg = post_filter_agg(
        move |ctx: &AggSegmentContext| {
            Ok((
                ctx.reader.fast_fields().f64(price).ok_or(price)?,
                ctx.reader.fast_fields().u64(category).ok_or(category)?,
            ))
        },
        move |ff: &(FastFieldReader<f64>, FastFieldReader<u64>), doc: DocId, _: ScoreBits| {
            ff.0.get(doc) >= min_price && ff.1.get(doc) == category_id
        },
        count_agg(),
    );
    assert_eq!(search_all(&searcher, &count_min_price_agg), 1);
}

#[test]
fn test_empty_terms_agg() {
    let product_index = ProductIndex::create_in_ram(3);
    let searcher = product_index.searcher();

    let cat_agg = terms_agg_u64(product_index.schema.category_id, count_agg());
    let cat_counts = search_all(&searcher, &cat_agg);
    assert_eq!(cat_counts.top_k(10, |b| *b), vec!());
}

/// Ranks a price by the bytes of the number, the lowest first, compared one
/// after the other; no price ranks lowest.
fn byte_rank(price: Option<f64>) -> u64 {
    match price {
        Some(v) => u64::from_be_bytes(v.to_le_bytes()).saturating_add(1),
        None => 0,
    }
}

#[test]
fn test_terms_agg() {
    let mut product_index = ProductIndex::create_in_ram(3);
    product_index.index_test_products();
    let searcher = product_index.searcher();

    let cat_agg = terms_agg_u64(
        product_index.schema.category_id,
        (count_agg(), min_agg_f64(product_index.schema.price)),
    );
    let cat_counts = search_all(&searcher, &cat_agg);
    let cat1_bucket = cat_counts.get(&1u64);
    assert_eq!(cat1_bucket, Some(&(2u64, Folded(Some(9.99_f64)))));
    let cat2_bucket = cat_counts.get(&2u64);
    assert_eq!(cat2_bucket, Some(&(3u64, Folded(Some(0.5_f64)))));

    // Sort terms facet by doc count desc
    assert_eq!(
        cat_counts.top_k(2, |b| b.0),
        vec!(
            (&2u64, &(3u64, Folded(Some(0.5_f64)))),
            (&1u64, &(2u64, Folded(Some(9.99_f64)))),
        ),
    );

    // Sort terms facet with minimum min price
    assert_eq!(
        cat_counts.top_k(1, |b| u64::MAX - byte_rank((b.1).0)),
        vec!((&2u64, &(3u64, Folded(Some(0.5_f64)))),),
    );
    // Sort terms facet with maximum min price
    assert_eq!(
        cat_counts.top_k(1, |b| byte_rank((b.1).0)),
        vec!((&1u64, &(2u64, Folded(Some(9.99_f64)))),),
    );
}

#[test]
fn test_filtered_terms_agg() {
    let mut product_index = ProductIndex::create_in_ram(3);
    product_index.index_test_products();
    let searcher = product_index.searcher();

    let even = 0_u64;
    let cat_agg = filtered_terms_agg_u64(
        product_index.schema.category_id,
        (count_agg(), min_agg_f64(product_index.schema.price)),
        move |cat_id| cat_id % 2 == even,
    );
    let cat_counts = search_all(&searcher, &cat_agg);
    let cat1_bucket = cat_counts.get(&1u64);
    assert_eq!(cat1_bucket, None);
    let cat2_bucket = cat_counts.get(&2u64);
    assert_eq!(cat2_bucket, Some(&(3u64, Folded(Some(0.5_f64)))));
}

#[test]
fn histogram_test_histogram_agg() {
    let mut product_index = ProductIndex::create_in_ram(3_u16);
    product_index.index_test_products();
    let searcher = product_index.searcher();

    let price_hist_agg = histogram_agg_f64(product_index.schema.price, 0.0, 10.0, count_agg());
    let price_hist = search_all(&searcher, &price_hist_agg);
    assert_eq!(
        buckets(&price_hist, 0.0, 10.0),
        vec!(
            (0.0_f64, Some(&2_u64)),
            (10.0_f64, Some(&1_u64)),
            (20.0_f64, None),
            (30.0_f64, None),
            (40.0_f64, None),
            (50.0_f64, Some(&1_u64)),
            (60.0_f64, None),
            (70.0_f64, None),
            (80.0_f64, None),
            (90.0_f64, None),
            (100.0_f64, Some(&1_u64)),
        )
    );
}

#[test]
fn test_histogram_agg_with_custom_start() {
    let mut product_index = ProductIndex::create_in_ram(3_u16);
    product_index.index_test_products();
    let searcher = product_index.searcher();

    let price_hist_agg = histogram_agg_f64(product_index.schema.price, 35.0, 10.0, count_agg());
    let price_hist = search_all(&searcher, &price_hist_agg);
    assert_eq!(
        buckets(&price_hist, 35.0, 10.0),
        vec!(
            (45.0_f64, Some(&1_u64)),
            (55.0_f64, None),
            (65.0_f64, None),
            (75.0_f64, None),
            (85.0_f64, None),
            (95.0_f64, Some(&1_u64)),
        )
    );
}

#[test]
fn histogram_test_nested_histogram_agg() {
    let mut product_index = ProductIndex::create_in_ram(3_u16);
    product_index.index_test_products();
    let searcher = product_index.searcher();

    let price_hist_for_tags_agg = terms_agg_u64s(
        product_index.schema.tag_ids,
        (
            count_agg(),
            histogram_agg_f64(product_index.schema.price, 0.0, 10.0, count_agg()),
        ),
    );
    let price_hist_for_tags = search_all(&searcher, &price_hist_for_tags_agg);
    let top_tags = price_hist_for_tags.top_k(3, |b| b.0);
    assert_eq!(top_tags.len(), 3);
    assert_eq!(top_tags[1].0, &111_u64);
    assert_eq!(top_tags[2].0, &311_u64);
    let mut top_tags_iter = top_tags.iter();

    let tag = top_tags_iter.next().unwrap();
    assert_eq!(tag.0, &211_u64);
    let tag_price_hist = tag.1;
    assert_eq!(tag_price_hist.0, 3_u64);
    assert_eq!(
        buckets(&tag_price_hist.1, 0.0, 10.0),
        vec!((0.0_f64, Some(&2_u64)), (10.0_f64, Some(&1_u64)),)
    );

    for tag in top_tags_iter {
        let (tag_id, tag_price_hist) = tag;
        assert_eq!(tag_price_hist.0, 2_u64);
        match tag_id {
            111_u64 => {
                assert_eq!(
                    buckets(&tag_price_hist.1, 0.0, 10.0),
                    vec!((0.0_f64, Some(&1_u64)), (10.0_f64, Some(&1_u64)),)
                );
            }
            311_u64 => {
                assert_eq!(
                    buckets(&tag_price_hist.1, 0.0, 10.0),
                    vec!(
                        (0.0_f64, Some(&1_u64)),
                        (10.0_f64, None),
                        (20.0_f64, None),
                        (30.0_f64, None),
                        (40.0_f64, None),
                        (50.0_f64, None),
                        (60.0_f64, None),
                        (70.0_f64, None),
                        (80.0_f64, None),
                        (90.0_f64, None),
                        (100.0_f64, Some(&1_u64)),
                    )
                );
            }
            320_u64 => {
                assert_eq!(
                    buckets(&tag_price_hist.1, 0.0, 10.0),
                    vec!(
                        (10.0_f64, Some(&1_u64)),
                        (20.0_f64, None),
                        (30.0_f64, None),
                        (40.0_f64, None),
                        (50.0_f64, Some(&1_u64)),
                    )
                );
            }
            _ => {
                panic!("Unexpected tag: {}", tag_id);
            }
        }
    }
}

#[test]
fn test_filtered_histogram_agg() {
    let mut product_index = ProductIndex::create_in_ram(3);
    product_index.index_test_products();
    let searcher = product_index.searcher();

    let price_query = RangeQuery::new_f64(product_index.schema.price, 10_f64..100_f64);
    let price_hist_agg = filter_agg(
        QueryRef { query: &price_query },
        histogram_agg_f64(product_index.schema.price, 0.0, 10.0, count_agg()),
    );
    let price_hist = search_all(&searcher, &price_hist_agg);

    assert_eq!(
        buckets(&price_hist, 0.0, 10.0),
        vec!(
            (10.0_f64, Some(&1_u64)),
            (20.0_f64, None),
            (30.0_f64, None),
            (40.0_f64, None),
            (50.0_f64, Some(&1_u64)),
        )
    );
}

// What holds of every aggregator, on the products.

fn terms_to_vec(fruit: &TermsAggResult<u64, u64>) -> Vec<(u64, u64)> {
    let mut entries: Vec<(u64, u64)> =
        fruit.keys().into_iter().map(|k| (k, *fruit.get(&k).unwrap())).collect();
    entries.sort();
    entries
}

#[test]
fn terms_count_per_category() {
    let mut product_index = ProductIndex::create_in_ram(3);
    product_index.index_test_products();
    let searcher = product_index.searcher();

    let fruit = search_all(&searcher, &terms_agg_u64(product_index.schema.category_id, count_agg()));
    assert_eq!(terms_to_vec(&fruit), vec![(1, 2), (2, 3)]);
    assert_eq!(fruit.len(), 2);
}

#[test]
fn segmentation_does_not_change_the_fruit() {
    let mut one = ProductIndex::create_in_ram(3);
    one.index_test_products();
    let mut apart = ProductIndex::create_in_ram(3);
    apart.index_test_products_apart();
    let one_searcher = one.searcher();
    let apart_searcher = apart.searcher();
    assert_eq!(one_searcher.segment_readers().len(), 1);
    assert!(apart_searcher.segment_readers().len() > 1);

    let agg = |s: &ProductSchema| {
        (
            count_agg(),
            min_agg_u64(s.positive_opinion_percent),
            max_agg_u64s(s.tag_ids),
            sum_agg_u64(s.positive_opinion_percent),
        )
    };
    let expected = (5_u64, Some(71_u64), Some(511_u64), Some(437_u64));
    assert_eq!(search_all(&one_searcher, &agg(&one.schema)), expected);
    assert_eq!(search_all(&apart_searcher, &agg(&apart.schema)), expected);

    let by_tag = |s: &ProductSchema| terms_agg_u64s(s.tag_ids, count_agg());
    let all_tags = vec![(111, 2), (112, 1), (211, 3), (311, 2), (320, 2), (511, 1)];
    assert_eq!(terms_to_vec(&search_all(&one_searcher, &by_tag(&one.schema))), all_tags);
    assert_eq!(terms_to_vec(&search_all(&apart_searcher, &by_tag(&apart.schema))), all_tags);
}

#[test]
fn deleted_documents_are_not_collected() {
    let mut product_index = ProductIndex::create_in_ram(3);
    product_index.index_test_products();
    product_index.writer.delete_term(Term::from_field_u64(product_index.schema.id, 3));
    product_index.writer.commit().unwrap();
    product_index.reader.reload().unwrap();
    let searcher = product_index.searcher();

    let agg = (
        count_agg(),
        min_agg_u64(product_index.schema.positive_opinion_percent),
        terms_agg_u64(product_index.schema.category_id, count_agg()),
    );
    let (count, min, by_category) = search_all(&searcher, &agg);
    assert_eq!(count, 4);
    assert_eq!(min, Some(82));
    assert_eq!(terms_to_vec(&by_category), vec![(1, 2), (2, 2)]);
}

#[test]
fn merge_has_an_identity_and_commutes() {
    let product_index = ProductIndex::create_in_ram(3);
    let searcher = product_index.searcher();
    let schema = &product_index.schema;

    let count = count_agg().prepare(&searcher).ok().unwrap();
    let mut acc = count.create_fruit();
    count.merge(&mut acc, 7);
    assert_eq!(acc, 7);
    let mut acc = 7;
    count.merge(&mut acc, count.create_fruit());
    assert_eq!(acc, 7);
    let mut ab = 3;
    count.merge(&mut ab, 4);
    let mut ba = 4;
    count.merge(&mut ba, 3);
    assert_eq!(ab, ba);
    let mut full = u64::MAX - 1;
    count.merge(&mut full, 5);
    assert_eq!(full, u64::MAX);

    let min = min_agg_i64(schema.category_id).prepare(&searcher).ok().unwrap();
    let mut acc = min.create_fruit();
    assert_eq!(acc, None);
    min.merge(&mut acc, Some(-3));
    assert_eq!(acc, Some(-3));
    min.merge(&mut acc, None);
    assert_eq!(acc, Some(-3));
    min.merge(&mut acc, Some(-5));
    assert_eq!(acc, Some(-5));
    min.merge(&mut acc, Some(9));
    assert_eq!(acc, Some(-5));

    let max = max_agg_u64(schema.category_id).prepare(&searcher).ok().unwrap();
    let mut ab = Some(3);
    max.merge(&mut ab, Some(8));
    let mut ba = Some(8);
    max.merge(&mut ba, Some(3));
    assert_eq!(ab, Some(8));
    assert_eq!(ab, ba);

    let sum = sum_agg_u64(schema.category_id).prepare(&searcher).ok().unwrap();
    let mut acc = Some(u64::MAX - 2);
    sum.merge(&mut acc, Some(5));
    assert_eq!(acc, Some(u64::MAX));
    let mut acc = sum.create_fruit();
    sum.merge(&mut acc, Some(5));
    sum.merge(&mut acc, Some(6));
    assert_eq!(acc, Some(11));

    let signed = sum_agg_i64(schema.category_id).prepare(&searcher).ok().unwrap();
    let mut acc = Some(i64::MAX - 1);
    signed.merge(&mut acc, Some(7));
    assert_eq!(acc, Some(i64::MAX));
    let mut acc = Some(i64::MIN + 1);
    signed.merge(&mut acc, Some(-7));
    assert_eq!(acc, Some(i64::MIN));
    let mut acc = Some(-4);
    signed.merge(&mut acc, Some(7));
    assert_eq!(acc, Some(3));

    let pair = (count_agg(), sum_agg_u64(schema.category_id)).prepare(&searcher).ok().unwrap();
    let fruits = vec![(1, Some(10)), (2, None), (3, Some(5))];
    assert_eq!(merge_fruits(&pair, fruits), (6, Some(15)));
    assert_eq!(merge_fruits(&pair, vec![]), (0, None));
}

#[test]
fn scoring_is_asked_for_where_a_leaf_asks() {
    let product_index = ProductIndex::create_in_ram(3);
    let schema = &product_index.schema;
    let price = schema.price;
    let best_score = |scoring: bool| {
        fold_agg(
            move |_: &AggSegmentContext| Ok::<(), Field>(()),
            || 0_u32,
            |_: &(), _: DocId, score: ScoreBits, best: u32| best.max(score),
            |a: u32, b: u32| a.max(b),
            scoring,
        )
    };
    assert!(!count_agg().requires_scoring());
    assert!(!min_agg_u64(price).requires_scoring());
    assert!(best_score(true).requires_scoring());
    assert!(!best_score(false).requires_scoring());
    assert!((count_agg(), best_score(true)).requires_scoring());
    assert!((best_score(true), count_agg(), count_agg()).requires_scoring());
    assert!(!(count_agg(), count_agg(), best_score(false)).requires_scoring());
    assert!(terms_agg_u64(schema.category_id, best_score(true)).requires_scoring());
    assert!(!terms_agg_u64(schema.category_id, count_agg()).requires_scoring());
    assert!(post_filter_agg_u64(schema.category_id, |c| c > 1, best_score(true)).requires_scoring());
    let all = AllQuery;
    assert!(filter_agg(QueryRef { query: &all }, best_score(true)).requires_scoring());
    assert!(!filter_agg(QueryRef { query: &all }, count_agg()).requires_scoring());
    assert!(either_agg(Either::<CountAgg, _>::Right(best_score(true))).requires_scoring());
    assert!(!either_agg(Either::<CountAgg, CountAgg>::Left(count_agg())).requires_scoring());
    assert!(histogram_agg_f64(price, 0.0, 1.0, best_score(true)).requires_scoring());
}

#[test]
fn scores_reach_a_leaf_that_asks_for_them() {
    let mut product_index = ProductIndex::create_in_ram(3);
    product_index.index_test_products();
    let searcher = product_index.searcher();
    let best_score = fold_agg(
        move |_: &AggSegmentContext| Ok::<(), Field>(()),
        || 0_u32,
        |_: &(), _: DocId, score: ScoreBits, best: u32| best.max(score),
        |a: u32, b: u32| a.max(b),
        true,
    );
    // Every document matches the query with the score one.
    assert_eq!(search_all(&searcher, &best_score), Folded(1.0_f32.to_bits()));
}

#[test]
fn a_missing_column_is_an_error() {
    let mut product_index = ProductIndex::create_in_ram(3);
    product_index.index_test_products();
    let searcher = product_index.searcher();
    let price = product_index.schema.price;
    let tags = product_index.schema.tag_ids;

    let query = QueryRef { query: &AllQuery };
    match agg_search(&searcher, &query, &min_agg_u64(price)) {
        Err(AggError::FastFieldNotAvailable(field)) => assert_eq!(field, price),
        _ => panic!("the price is no unsigned column"),
    }
    match agg_search(&searcher, &query, &terms_agg_u64(tags, count_agg())) {
        Err(AggError::FastFieldNotAvailable(field)) => assert_eq!(field, tags),
        _ => panic!("the tags are no single-valued column"),
    }
    match agg_search(&searcher, &query, &post_filter_agg_u64(tags, |_| true, count_agg())) {
        Err(AggError::FastFieldNotAvailable(field)) => assert_eq!(field, tags),
        _ => panic!("the tags are no single-valued column"),
    }
    assert!(agg_search(&searcher, &query, &min_agg_u64s(tags)).is_ok());
}

#[test]
fn either_sides() {
    let left: Either<u64, bool> = Either::Left(3);
    let right: Either<u64, bool> = Either::Right(true);
    assert_eq!(left.as_ref(), Either::Left(&3));
    assert_eq!(right.as_ref(), Either::Right(&true));
    assert_eq!(Either::<u64, bool>::Left(3).map(|l| l + 1, |r| !r), Either::Left(4));
    assert_eq!(Either::<u64, bool>::Right(true).map(|l| l + 1, |r| !r), Either::Right(false));
    assert_eq!(Either::<u64, bool>::Left(3).unwrap(|l| l > 2, |r| r), true);
    assert_eq!(Either::<u64, bool>::Right(false).unwrap(|l| l > 2, |r| r), false);
    assert_eq!(left.unwrap_left(), 3);
    assert_eq!(right.unwrap_right(), true);
}

#[test]
fn top_k_orders_ties_by_key() {
    let mut product_index = ProductIndex::create_in_ram(3);
    product_index.index_test_products();
    let searcher = product_index.searcher();

    let by_tag = search_all(&searcher, &terms_agg_u64s(product_index.schema.tag_ids, count_agg()));
    let top: Vec<(u64, u64)> = by_tag.top_k(4, |c| *c).into_iter().map(|(k, c)| (*k, *c)).collect();
    assert_eq!(top, vec![(211, 3), (111, 2), (311, 2), (320, 2)]);
    let all: Vec<(u64, u64)> = by_tag.top_k(10, |c| *c).into_iter().map(|(k, c)| (*k, *c)).collect();
    assert_eq!(all, vec![(211, 3), (111, 2), (311, 2), (320, 2), (112, 1), (511, 1)]);
    assert_eq!(by_tag.top_k(0, |c| *c), vec![]);
    let one: Vec<(u64, u64)> = by_tag.top_k(1, |c| 10 - *c).into_iter().map(|(k, c)| (*k, *c)).collect();
    assert_eq!(one, vec![(112, 1)]);
}

#[test]
fn histogram_lists_the_gaps() {
    let mut product_index = ProductIndex::create_in_ram(3);
    product_index.index_test_products();
    let searcher = product_index.searcher();
    let price = product_index.schema.price;

    let hist = search_all(&searcher, &histogram_agg_f64(price, 0.0, 10.0, count_agg()));
    assert_eq!(hist.span(), Some((0, 10)));
    assert_eq!(hist.get(1), Some(&1));
    assert_eq!(hist.get(2), None);
    let ordinals: Vec<u64> = hist.buckets().into_iter().map(|b| b.0).collect();
    assert_eq!(ordinals, (0..=10).collect::<Vec<u64>>());

    // Nothing is below the start but everything can be: no bucket at all.
    let none = search_all(&searcher, &histogram_agg_f64(price, 1000.0, 10.0, count_agg()));
    assert_eq!(none.span(), None);
    assert_eq!(none.buckets(), vec![]);

    // A value that equals the start falls into the first bucket.
    let at_start = search_all(&searcher, &histogram_agg_f64(price, 100.01, 10.0, count_agg()));
    assert_eq!(at_start.buckets(), vec![(0, Some(&1))]);
}

#[test]
fn filter_follows_the_stream_of_documents() {
    let mut product_index = ProductIndex::create_in_ram(3);
    product_index.index_test_products();
    let searcher = product_index.searcher();
    let schema = &product_index.schema;

    // The filter matches the first two documents, the query the last three:
    // the filter's cursor is passed by the stream and comes to its end.
    let cheap = product_index.category_query(1);
    let agg = filter_agg(QueryRef { query: &cheap }, count_agg());
    assert_eq!(search(&searcher, &product_index.category_query(2), &agg), 0);

    // The filter matches the last three documents, the query the first two:
    // the cursor is beyond every document of the stream.
    let other = product_index.category_query(2);
    let agg = filter_agg(QueryRef { query: &other }, count_agg());
    assert_eq!(search(&searcher, &product_index.category_query(1), &agg), 0);

    // Under a multi-valued terms bucket the same document is forwarded once
    // for each of its keys.
    let agg = terms_agg_u64s(schema.tag_ids, filter_agg(QueryRef { query: &cheap }, count_agg()));
    let fruit = search_all(&searcher, &agg);
    assert_eq!(
        terms_to_vec(&fruit),
        vec![(111, 2), (112, 1), (211, 2), (311, 0), (320, 1), (511, 0)]
    );

    // A price range as the filter, with gaps that the cursor skips over.
    let range = RangeQuery::new_f64(schema.price, 9.0..60.0);
    let agg = filter_agg(QueryRef { query: &range }, sum_agg_u64(schema.positive_opinion_percent));
    assert_eq!(search_all(&searcher, &agg), Some(82 + 100 + 85));
}

#[test]
fn post_filter_on_single_values() {
    let mut product_index = ProductIndex::create_in_ram(3);
    product_index.index_test_products();
    let searcher = product_index.searcher();
    let schema = &product_index.schema;

    let agg = post_filter_agg_u64(schema.positive_opinion_percent, |p| p >= 85, count_agg());
    assert_eq!(search_all(&searcher, &agg), 3);
    let agg = post_filter_agg_u64s(schema.tag_ids, |_| false, count_agg());
    assert_eq!(search_all(&searcher, &agg), 0);
}

// Signed columns and multi-valued dates, on an index of three readings.

struct Readings {
    level: Field,
    changes: Field,
    seen: Field,
    reader: IndexReader,
}

fn readings() -> Readings {
    let mut schema = Schema::builder();
    let level = schema.add_i64_field("level", INDEXED | FAST);
    let changes = schema.add_i64_field(
        "changes",
        IntOptions::default().set_fast(Cardinality::MultiValues),
    );
    let seen = schema.add_date_field(
        "seen",
        IntOptions::default().set_fast(Cardinality::MultiValues),
    );
    let index = Index::create(RAMDirectory::create(), schema.build()).unwrap();
    let mut writer = index.writer(3_000_000).unwrap();
    let rows: Vec<(i64, Vec<i64>, Vec<&str>)> = vec![
        (-7, vec![-2, 5], vec!["2001-01-01T00:00:00+00:00", "1999-06-01T12:00:00+00:00"]),
        (4, vec![], vec![]),
        (-7, vec![9, -2, -30], vec!["2010-10-10T10:10:10+00:00"]),
    ];
    for (value, deltas, dates) in rows {
        let mut doc = Document::new();
        doc.add_i64(level, value);
        for delta in deltas {
            doc.add_i64(changes, delta);
        }
        for text in dates {
            doc.add_date(seen, &date(text));
        }
        writer.add_document(doc);
    }
    writer.commit().unwrap();
    let reader = index.reader().unwrap();
    Readings { level, changes, seen, reader }
}

#[test]
fn signed_columns() {
    let readings = readings();
    let searcher = readings.reader.searcher();

    assert_eq!(search_all(&searcher, &min_agg_i64(readings.level)), Some(-7));
    assert_eq!(search_all(&searcher, &max_agg_i64(readings.level)), Some(4));
    assert_eq!(search_all(&searcher, &sum_agg_i64(readings.level)), Some(-10));
    assert_eq!(search_all(&searcher, &min_agg_i64s(readings.changes)), Some(-30));
    assert_eq!(search_all(&searcher, &max_agg_i64s(readings.changes)), Some(9));
    assert_eq!(search_all(&searcher, &sum_agg_i64s(readings.changes)), Some(-20));

    let by_level = search_all(&searcher, &terms_agg_i64(readings.level, count_agg()));
    assert_eq!(by_level.get(&-7), Some(&2));
    assert_eq!(by_level.get(&4), Some(&1));
    assert_eq!(by_level.len(), 2);
    let top: Vec<(i64, u64)> =
        by_level.top_k(5, |c| *c).into_iter().map(|(k, c)| (*k, *c)).collect();
    assert_eq!(top, vec![(-7, 2), (4, 1)]);

    // A value that a document holds twice is counted twice; only the keys
    // that pass the filter get a bucket.
    let drops = search_all(
        &searcher,
        &filtered_terms_agg_i64s(readings.changes, count_agg(), |change| change < 0),
    );
    assert_eq!(drops.get(&-2), Some(&2));
    assert_eq!(drops.get(&-30), Some(&1));
    assert_eq!(drops.get(&5), None);
    assert_eq!(drops.len(), 2);

    assert_eq!(
        search_all(&searcher, &post_filter_agg_i64(readings.level, |v| v < 0, count_agg())),
        2
    );
    assert_eq!(
        search_all(&searcher, &post_filter_agg_i64s(readings.changes, |v| v > 5, count_agg())),
        1
    );
}

#[test]
fn dates_of_several_per_document() {
    let readings = readings();
    let searcher = readings.reader.searcher();

    assert_eq!(
        date_of(search_all(&searcher, &min_agg_dates(readings.seen))),
        Some(date("1999-06-01T12:00:00+00:00"))
    );
    assert_eq!(
        date_of(search_all(&searcher, &max_agg_dates(readings.seen))),
        Some(date("2010-10-10T10:10:10+00:00"))
    );
    // A column of another kind is no column of dates.
    assert!(agg_search(&searcher, &QueryRef { query: &AllQuery }, &min_agg_dates(readings.level))
        .is_err());
}

// The values of a document reach a sum one by one: a sum that has stopped at
// the end of its range comes down again with the next value.
#[test]
fn a_sum_takes_the_values_one_by_one() {
    let mut schema = Schema::builder();
    let changes = schema.add_i64_field(
        "changes",
        IntOptions::default().set_fast(Cardinality::MultiValues),
    );
    let index = Index::create(RAMDirectory::create(), schema.build()).unwrap();
    let mut writer = index.writer(3_000_000).unwrap();
    let rows: Vec<Vec<i64>> = vec![vec![5], vec![i64::MAX, -10]];
    for deltas in rows {
        let mut doc = Document::new();
        for delta in deltas {
            doc.add_i64(changes, delta);
        }
        writer.add_document(doc);
    }
    writer.commit().unwrap();
    let reader = index.reader().unwrap();
    let searcher = reader.searcher();

    assert_eq!(search_all(&searcher, &sum_agg_i64s(changes)), Some(i64::MAX - 10));
    assert_eq!(search_all(&searcher, &max_agg_i64s(changes)), Some(i64::MAX));
    assert_eq!(search_all(&searcher, &min_agg_i64s(changes)), Some(-10));
}

// A search that is planned first and then collected segment by segment gives
// the fruit of the search in one go.
#[test]
fn a_planned_search_is_the_search() {
    let mut product_index = ProductIndex::create_in_ram(3);
    product_index.index_test_products_apart();
    let searcher = product_index.searcher();
    let schema = &product_index.schema;
    let cheap = product_index.category_query(1);
    let query = QueryRef { query: &cheap };

    let agg = (count_agg(), sum_agg_u64s(schema.tag_ids), terms_agg_u64(schema.category_id, count_agg()));
    let (weight, prepared) = plan_search(&searcher, &query, &agg).ok().unwrap();
    let mut fruits = Vec::new();
    for (segment_ord, segment_reader) in searcher.segment_readers().iter().enumerate() {
        let mut fruit = prepared.create_fruit();
        collect_segment(&prepared, &weight, segment_ord as u32, segment_reader, &mut fruit)
            .ok()
            .unwrap();
        fruits.push(fruit);
    }
    assert_eq!(fruits.len(), 5);
    let planned = merge_fruits(&prepared, fruits);
    let searched = agg_search(&searcher, &query, &agg).ok().unwrap();
    assert_eq!(planned.0, 2);
    assert_eq!(planned.1, Some(111 + 112 + 211 + 111 + 211 + 320));
    assert_eq!(terms_to_vec(&planned.2), vec![(1, 2)]);
    assert_eq!(searched.0, planned.0);
    assert_eq!(searched.1, planned.1);
    assert_eq!(terms_to_vec(&searched.2), terms_to_vec(&planned.2));
}

// The error of a search is that of the step that failed: the segment that
// lacks the column names the field, and nothing is collected from it.
#[test]
fn a_segment_hands_its_error_on() {
    let mut product_index = ProductIndex::create_in_ram(3);
    product_index.index_test_products();
    let searcher = product_index.searcher();
    let price = product_index.schema.price;
    let category = product_index.schema.category_id;
    let query = QueryRef { query: &AllQuery };

    let agg = (count_agg(), max_agg_u64(category), min_agg_u64(price));
    let (weight, prepared) = plan_search(&searcher, &query, &agg).ok().unwrap();
    let mut fruit = prepared.create_fruit();
    match collect_segment(&prepared, &weight, 0, &searcher.segment_readers()[0], &mut fruit) {
        Err(AggError::FastFieldNotAvailable(field)) => assert_eq!(field, price),
        _ => panic!("the price is no unsigned column"),
    }
    assert_eq!(fruit, (0, None, None));
    match agg_search(&searcher, &query, &agg) {
        Err(AggError::FastFieldNotAvailable(field)) => assert_eq!(field, price),
        _ => panic!("the price is no unsigned column"),
    }
    // Of two columns that are missing, the first in the tuple is named.
    let agg = (min_agg_u64s(category), min_agg_u64(price));
    match agg_search(&searcher, &query, &agg) {
        Err(AggError::FastFieldNotAvailable(field)) => assert_eq!(field, category),
        _ => panic!("the category is no multi-valued column"),
    }
}

// A rank may be a signed number: the fewest documents first.
#[test]
fn top_k_takes_a_signed_rank() {
    let mut product_index = ProductIndex::create_in_ram(3);
    product_index.index_test_products();
    let searcher = product_index.searcher();
    let by_tag = search_all(&searcher, &terms_agg_u64s(product_index.schema.tag_ids, count_agg()));
    let rarest: Vec<(u64, u64)> = by_tag
        .top_k(3, |count| -(*count as i64))
        .into_iter()
        .map(|(tag, count)| (*tag, *count))
        .collect();
    assert_eq!(rarest, vec![(112, 1), (511, 1), (111, 2)]);
}
