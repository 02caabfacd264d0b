//! Relays recent feed posts as synthesized speech: a verified item store with
//! deduplication, a post normalizer, an ingestion cycle and the decisions of the
//! serving operation.

pub mod error;
pub mod ingest;
pub mod serve;
pub mod store;
pub mod toots;

pub use error::Error;
pub use ingest::{ingest_cycle, ingest_now, IngestPolicy, MIN_CONTENT_LEN, RECENCY_WINDOW_MS};
pub use serve::{feed_url, next_speech_text, vendor_outcome, vendor_url, ElevenlabsBody};
pub use store::Store;
pub use toots::{extract_between_quotes, Toot, TootIn, WRAP_WIDTH};
