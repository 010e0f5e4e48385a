//! The decision logic of the `belt` command line, with its behaviour stated in
//! contracts and proved.

pub mod agent;
pub mod assistant;
pub mod auto;
pub mod bootstrap;
pub mod bytes;
pub mod claw;
pub mod cron;
pub mod daemon;
pub mod dashboard;
pub mod decompose;
pub mod files;
pub mod hitl;
pub mod links;
pub mod numbers;
pub mod order;
pub mod paths;
pub mod pieces;
pub mod process;
pub mod queue;
pub mod queue_commands;
pub mod scan;
pub mod specs;
pub mod status;
pub mod style;
pub mod text;
pub mod workspace;
