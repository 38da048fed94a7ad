//! Agent kernel.

pub mod agent;
pub mod authority;
pub mod batches;
pub mod capability;
pub mod chronicle;
pub mod compaction;
pub mod conduct;
pub mod debug;
pub mod decimal;
pub mod declarations;
pub mod drive;
pub mod endings;
pub mod error;
pub mod evaluation;
pub mod event;
pub mod fixture;
pub mod hooks;
pub mod json;
pub mod lifecycle;
pub mod luau;
pub mod model;
pub mod order;
pub mod ownership;
pub mod parity;
pub mod playback;
pub mod policy;
pub mod progress;
pub mod provider;
pub mod queue;
pub mod reports;
pub mod results;
pub mod run;
pub mod scheduler;
pub mod schema_validation;
pub mod scripts;
pub mod state;
pub mod stream;
pub mod text;
pub mod tool;
pub mod trace;
pub mod transition;
pub mod updates;
pub mod words;
