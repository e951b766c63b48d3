//! Project naming, compose-shorthand parsing and the decisions of the
//! up / down / build / status / shell drivers of a docker-compose-like
//! workflow run through the Docker Engine API.
pub mod command;
pub mod compose;
pub mod environment;
pub mod error;
pub mod exec;
pub mod images;
pub mod logs;
pub mod naming;
pub mod reconcile;
pub mod scaffold;
pub mod shorthand;
pub mod text;
