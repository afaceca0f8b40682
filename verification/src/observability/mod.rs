pub mod metrics;

pub use self::metrics::{EngineMetrics, StreamMetrics, MetricsSnapshot};
