//! Metrics exporter core: turns file freshness readings and host resource
//! readings into a text exposition payload, one scrape at a time.

pub mod host;
pub mod metric;
pub mod scrape;
pub mod target;
