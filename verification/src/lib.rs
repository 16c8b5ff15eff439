//! Verified core of a ranged-download tool: size-string parsing, byte-range
//! planning with a session cap, and the bookkeeping for concurrent part
//! fetches (progress accounting and result aggregation).

pub mod errors;
pub mod fetch;
pub mod plan;
pub mod session;
pub mod size;
pub mod text;

pub use errors::ConfigError;
pub use errors::PartError;
pub use errors::ProtocolError;
pub use plan::plan;
pub use plan::ByteRange;
pub use plan::PlanRequest;
pub use plan::PlannedPart;
pub use plan::ResumptionState;
pub use size::parse_size;
pub use size::BYTES_PER_GB;
pub use size::BYTES_PER_MB;
pub use fetch::fetch_begin;
pub use fetch::FetchProgress;
pub use fetch::PartResult;
pub use session::probe_total_size;
pub use session::session_exit_code;
pub use session::summarize;
pub use session::SessionConfig;
pub use session::Summary;
pub use text::part_file_name;
pub use text::range_header_value;
pub use text::u64_to_dec;
