//! The decisions behind a cue-based show controller: build identity, the cue
//! list and its edit history, triggers, remote control, playback bookkeeping
//! and lighting. Windows, sockets, GPU work and files live in the application
//! around this library; everything here works on plain values and is verified.

pub mod text;
pub mod identity;
pub mod metadata;
pub mod qid;
pub mod ieee;
pub mod show;
pub mod cue_order;
pub mod outside;
pub mod path;
pub mod undo;
pub mod state;
pub mod commands;
pub mod triggers;
pub mod remote;
pub mod midi;
pub mod startup;
pub mod control;
pub mod table;
pub mod lighting;
pub mod dmx;
pub mod video;
pub mod actions;
pub mod playback;
pub mod pacing;
pub mod published;
pub mod windows;
pub mod media;
pub mod diagnostics;
pub mod desk;
pub mod frame;
pub mod identity_card;
pub mod project;
pub mod pack;
pub mod numbering;
