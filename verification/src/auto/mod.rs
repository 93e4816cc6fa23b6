//! Plans made by an orchestrator and executed by workers.

pub mod codec;
pub mod codec_laws;
pub mod company;
pub mod executor;
pub mod executor_laws;
pub mod line;
pub mod orchestrator;
pub mod orchestrator_laws;
pub mod run_laws;
pub mod schema;
pub mod types;
pub mod worker;
pub mod worker_laws;
