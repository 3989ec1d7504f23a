//! Task decomposition and phased execution of capability-tagged work units.
//!
//! A task text is analyzed into a complexity score and a set of capabilities
//! ([`planner`]), turned into work units with dependencies, leveled into
//! dependency-respecting phases ([`scheduler`]), and run phase by phase under
//! approval gates and a concurrency bound ([`engine`]).

pub mod agents;
pub mod autonomy;
pub mod capabilities;
pub mod config;
pub mod engine;
pub mod factory;
pub mod plan;
pub mod planner;
pub mod scheduler;
pub mod text;

pub use agents::{Agent, AgentResult};
pub use autonomy::AutonomyMode;
pub use capabilities::AgentCapability;
pub use config::{AnalyzerConfig, AuthConfig, AuthMethod, Config, MasterCoderConfig, StatusLineConfig};
pub use engine::{EngineAction, ExecutionResult, Orchestrator, PlanRun, Stage};
pub use factory::AgentFactory;
pub use plan::{AgentSpec, ExecutionPhase, ExecutionPlan};
pub use planner::{complexity_label, TaskAnalysis, TaskPlanner};
pub use scheduler::schedule;
