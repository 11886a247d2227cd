//! Sync bridge orchestrator library.
//!
//! The library drives an external worker process that computes audio/video
//! offsets.  It decides which worker executable to launch (`locator`),
//! encodes the job description for the worker's input stream and decodes
//! the worker's line-delimited event protocol (`json`, `codec`, `events`),
//! runs the per-job state machine that dispatches events, accumulates
//! results and honours cancellation (`session`, `cancel`), and interprets
//! the media prober's structured output and the file-listing rules
//! (`probe`, `files`).  All process and stream I/O lives in the
//! surrounding application; the library works on plain byte strings.

pub mod events;
pub mod json;
pub mod codec;
pub mod session;
pub mod locator;
pub mod cancel;
pub mod probe;
pub mod files;
