pub mod mapping;
pub mod worker;

pub use mapping::mapping_is_proven;
pub use worker::{
    FontForgeWorker, FontJobError, FontJobRequest, FontJobResult, FontOutputFormat, WorkerConfig, WorkerReport,
};
