//! Order latency and queue position models.
pub mod l3queue;
pub mod latency;
pub mod queue;

pub use l3queue::{L3FIFOQueueModel, L3OrderSource};
pub use latency::{
    ConstantLatency, IntpOrderLatency, LatencyLookup, LatencyModel, OrderLatencyAdjustment,
    OrderLatencyRow,
};
pub use queue::{LogProbQueueFunc, LogProbQueueFunc2, RiskAdverseQueueModel};

