//! The logic of the spacezed cockpit: project environments, the registry of
//! terminal agents, the agent picker and the powerline status bar.

pub mod text;
pub mod path;
pub mod string_map;
pub mod repository;
pub mod outside;
pub mod environment;
pub mod shell;
pub mod project_environment;
pub mod load;
pub mod agent_registry;
pub mod agent_watch;
pub mod palette;
pub mod focus;
pub mod agent_cockpit;
pub mod powerline;
pub mod spaceline;
