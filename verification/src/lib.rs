//! Rust access to the Faiss C API: the checks, plans and messages around
//! the index calls, version handling, and the benchmark's configuration.

pub mod text;
pub mod number;
pub mod version;
pub mod error;
pub mod api;
pub mod index;
pub mod construct;
pub mod bench;
pub mod jsonl;

pub use version::{FaissVersion, min_ivf_rabitq_version};
pub use error::{FaissError, MetricType};
pub use api::{faiss_version_string, faiss_version, ensure_ivf_rabitq_support, LibrarySearch, LoadAction};
pub use index::{IndexKind, IndexShape, SearchPlan, index_description, labels_for_query};
pub use bench::{BenchConfig, parse_args, parse_metric, help_text, valid_hits, recall_hits};
