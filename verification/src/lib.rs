//! Verified core of the Not News research canvas: the event graph and its
//! guarded placement and curation commands, the research agent's launch,
//! protocol and supervision decisions, credential and endpoint settings,
//! the keyboard and menu flows of the canvas, voice capture and speech
//! decisions, the Hermes profile's ownership rules, bounded text handling,
//! and the platform path rules.

pub mod text;
pub mod channel;
pub mod encoding;
pub mod domain;
pub mod agent;
pub mod audio;
pub mod platform;
pub mod settings;
pub mod settings_menu;
pub mod settings_flow;
pub mod input;
pub mod keys;
pub mod canvas;
pub mod curation_flow;
pub mod profile;
pub mod release;
pub mod graph_files;
pub mod startup;
pub mod research_setup;
pub mod research_session;
