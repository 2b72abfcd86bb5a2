//! A terminal wallpaper browser's verified core.
//!
//! The heart of the library is the asynchronous preview pipeline: a bounded
//! least-recently-used cache of decoded previews ([`cache`]) and the
//! controller that coordinates selection changes, the single outstanding
//! decode request per path, and the per-tick draining of decode results
//! ([`controller`]). Around it stand the pieces of the browser that are pure
//! logic: which file names count as images ([`files`]), the key tables and
//! actions ([`actions`]), the selectable listing ([`list`]), desktop
//! detection and backend choice ([`models`], [`providers`]), monitor-name
//! extraction from the compositor's JSON listing ([`monitors`]), the
//! command-line path ([`cli`]), and the ports the surrounding application
//! implements against the real system ([`ports`], [`service`]).

pub mod actions;
pub mod cache;
pub mod cli;
pub mod controller;
pub mod files;
pub mod list;
pub mod models;
pub mod monitors;
pub mod ports;
pub mod providers;
pub mod recency;
pub mod service;
pub mod strutil;
