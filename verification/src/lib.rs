//! A voice agent for a smart speaker.
use vstd::prelude::*;

pub mod agent;
pub mod airplay;
pub mod aivs;
pub mod asr;
pub mod asr_probe;
pub mod audio;
pub mod capture;
pub mod config;
pub mod device;
pub mod faults;
pub mod jobs;
pub mod json;
pub mod kws;
pub mod legacy_sse;
pub mod mcp;
pub mod music;
pub mod native;
pub mod paths;
pub mod playlist;
pub mod session;
pub mod shell;
pub mod songs;
pub mod sorting;
pub mod speech;
pub mod text;
pub mod urls;
pub mod vad;
pub mod vpm;
pub mod vpm_probe;
pub mod weather;
pub mod wire;

verus! {

} // verus!
