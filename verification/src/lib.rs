//! A lyrics-sidecar acquisition pipeline.
//!
//! The library locates audio tracks, derives a lyrics lookup key from each
//! track's tags, fetches lyrics from a remote lookup service, and records the
//! result next to the track: a `.lrc` sidecar file holding the lyrics, or a
//! `.nolrc` sentinel recording that no lyrics exist so the track is not
//! queried again.
//!
//! Everything that decides — classification policy, request preparation, the
//! sidecar state transitions, admission control — is verified here over an
//! explicit filesystem state. The unverified binary around the library
//! performs the actual directory walk, tag decode, HTTP fetch and file I/O,
//! and consults these functions for every decision.

pub mod cli;
pub mod ext;
pub mod file;
pub mod fs_state;
pub mod op;
pub mod remote;
pub mod trace;
pub mod util;

pub use op::start_up;
