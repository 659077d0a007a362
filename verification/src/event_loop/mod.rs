//! Event loop orchestration: the coordination of hats by events.
pub mod building;
pub mod event;
pub mod guidance;
pub mod laws;
pub mod mutation;
pub mod orchestrator;
pub mod processing;
pub mod processing_laws;
pub mod prompt;
pub mod prompt_laws;
pub mod queues;
pub mod registry;
pub mod routing;
pub mod routing_laws;
pub mod scratchpad;
pub mod state;
pub mod tasks;
pub mod work_laws;
