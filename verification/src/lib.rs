pub mod agent;
pub mod chat;
pub mod collections;
pub mod config;
pub mod context;
pub mod editing;
pub mod gather;
pub mod graph;
pub mod ids;
pub mod iterate;
pub mod json;
pub mod matcher;
pub mod nodes;
pub mod pipeline;
pub mod priority;
pub mod runner;
pub mod schema;
pub mod server_config;
pub mod structured;
pub mod store;
pub mod template;
pub mod text;
pub mod transform;
pub mod ui;
pub mod utils;
pub mod values;
