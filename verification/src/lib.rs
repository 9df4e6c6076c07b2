//! Ingestion of trade-execution exports: locale-aware record parsing,
//! file decoding, directory-scan aggregation, and the debounce policy of
//! the change watcher.

pub mod decimal;
pub mod encoding;
pub mod record;
pub mod scan;
pub mod text;
pub mod timestamp;
pub mod watch;

pub use decimal::Decimal;
