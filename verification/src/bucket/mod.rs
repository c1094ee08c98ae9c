pub mod buckets;
pub mod histogram;
pub mod ordered;
pub mod terms;
