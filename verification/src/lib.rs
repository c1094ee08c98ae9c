//! Aggregations over the documents that match a query of a tantivy index.
//!
//! An aggregation is a tree: its leaves are metrics (`metric`), its inner
//! nodes group the documents into buckets (`bucket`), restrict them
//! (`filter`, `post_filter`) or put aggregators side by side (`tuple`,
//! `either`). `searcher` streams the matching documents of each segment
//! through the tree and merges the fruits of the segments. `agg` states what
//! every node owes: a merge of fruits with an identity, commutative and
//! associative, so that the fruit of a search does not depend on how the
//! documents are spread over the segments.
//!
//! The index library is tantivy 0.11. It imports `serde::export`, which serde
//! has from 1.0.119 on no longer, so the dependencies hold `serde` and
//! `serde_derive` at 1.0.118; nothing here calls them.

pub mod agg;
pub mod bucket;
pub mod column;
pub mod either;
pub mod filter;
pub mod index;
pub mod metric;
pub mod post_filter;
pub mod predicate;
pub mod searcher;
pub mod tuple;

pub use agg::{Agg, AggError, AggSegmentContext, PreparedAgg, SegmentAgg};
pub use bucket::histogram::histogram_agg;
pub use bucket::terms::{
    filtered_terms_agg_i64, filtered_terms_agg_i64s, filtered_terms_agg_u64,
    filtered_terms_agg_u64s, terms_agg_i64, terms_agg_i64s, terms_agg_u64, terms_agg_u64s,
};
pub use either::{either_agg, one_of_agg, Either};
pub use filter::filter_agg;
pub use metric::count::count_agg;
pub use metric::reduce::{
    max_agg_date, max_agg_dates, max_agg_i64, max_agg_i64s, max_agg_u64, max_agg_u64s,
    min_agg_date, min_agg_dates, min_agg_i64, min_agg_i64s, min_agg_u64, min_agg_u64s,
    sum_agg_i64, sum_agg_i64s, sum_agg_u64, sum_agg_u64s,
};
pub use post_filter::post_filter_agg;
pub use searcher::{agg_search, plan_search};
