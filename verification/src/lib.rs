//! Verified core of the BigEcho meeting recorder: session metadata, settings
//! validation, artifact rendering, upload bookkeeping and sync planning.
pub mod text;
pub mod paths;
pub mod session;
pub mod markdown;
pub mod tags;
pub mod settings;
pub mod secrets;
pub mod command_core;
pub mod audio;
pub mod resample;
pub mod catalog;
pub mod redaction;
pub mod brain;
pub mod brain_flow;
pub mod brain_state;
pub mod archive;
pub mod yandex;
pub mod disk_api;
pub mod sync_plan;
pub mod sync_run;
pub mod updates;
pub mod pipeline;
pub mod pipeline_run;
pub mod transcript;
pub mod salute;
pub mod api_log;
pub mod minitray;
pub mod session_commands;
pub mod editors;
pub mod recording;
pub mod integrations;
