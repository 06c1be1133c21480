//! Co-watcher: the verified core of a classroom screen-watching system.
//!
//! The library holds the logic of the console and the agent that does not need a network, a screen
//! or a file system: encoders, resizing, the AVI container, settings clamps, the restart policy,
//! room and classroom rules, and the parsers of the small text formats the apps keep on disk.

pub mod encoding;
pub mod resize;
pub mod supervisor;
pub mod h264;
pub mod streaming;
pub mod recorder;
pub mod audio;
pub mod gdi;
pub mod text;
pub mod order;
pub mod i18n;
pub mod membership;
pub mod paths;
pub mod classroom;
pub mod room;
pub mod actions;
pub mod audit;
pub mod tools;
pub mod json;
pub mod catalog;
pub mod wire;
pub mod rpc;
pub mod broadcast;
pub mod cloud;
pub mod provider;
pub mod settings;
pub mod subscription;
pub mod ai;
pub mod recording;
pub mod ffmpeg;
pub mod capture;
pub mod blocker;
pub mod names;
pub mod web;
pub mod session;
