//! Decision core of the Kevin orchestrator: the run saga, the task runner, the
//! scheduler, the prompt context and the read models, without their I/O.
pub mod commands;
pub mod convert;
pub mod domain;
pub mod error;
pub mod evaluator_port;
pub mod events;
pub mod ids;
pub mod json;
pub mod local_workspace;
pub mod maps;
pub mod money;
pub mod orchestrator;
pub mod ports;
pub mod projections;
pub mod role_port;
pub mod roles;
pub mod run_actor;
pub mod scheduler;
pub mod services;
pub mod task_runner;
pub mod testing;
pub mod text;
