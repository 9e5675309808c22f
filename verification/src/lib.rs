//! A metadata resolution and normalization engine for anime and TV
//! schedules: composite-identifier parsing and search heuristics for the
//! movie/TV catalog, by-id and seasonal mapping for the external anime
//! catalogs, a fixed provider fallback chain where the first success wins,
//! the past-versus-future selector between the archival and the live
//! seasonal source, and the tiered cache policy. Every provider's response
//! is mapped onto one canonical schema (`model::UnifiedMetadata`,
//! `model::Item`). The host's HTTP edge performs the fetches and hands
//! this crate plain records.

use vstd::prelude::*;

pub mod anilist;
pub mod jikan;
pub mod model;
pub mod orchestrator;
pub mod policy;
pub mod seasonal;
pub mod sites;
pub mod text;
pub mod title;
pub mod tmdb;

verus! {

/// Error taxonomy shared by every resolver in this crate.
///
/// `NotFoundUpstream` is tolerated (it advances a fallback chain or yields an
/// empty sub-result); `UpstreamProtocolError` is fatal for the current
/// provider or sub-fetch; `InvalidInput` always escapes to the caller;
/// `Exhausted` means every eligible provider failed or none was eligible.
#[derive(Clone, Copy, Debug, PartialEq, Eq, Structural)]
pub enum MetaError {
    NotFoundUpstream,
    UpstreamProtocolError,
    InvalidInput,
    Exhausted,
}

} // verus!
