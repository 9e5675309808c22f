//! The provider fallback chain: which providers a request makes eligible,
//! in fixed priority order, and how the first success wins while invalid
//! input escapes at once.

use vstd::prelude::*;
use crate::MetaError;
use crate::model::UnifiedMetadata;

verus! {

/// The arguments of a metadata request.
#[derive(Default, Debug, Clone, PartialEq)]
pub struct MetadataArgs {
    pub tmdb_id: Option<String>,
    pub mal_id: Option<String>,
    pub anilist_id: Option<String>,
    pub title: Option<String>,
    pub year: Option<i32>,
}

/// The providers, in the orchestrator's fixed priority order.
#[derive(Debug, Clone, Copy, PartialEq, Eq, Structural)]
pub enum ProviderKind {
    Tmdb,
    Jikan,
    Anilist,
}

/// The providers a request makes eligible, in attempt order: TMDB when a
/// TMDB id is given, Jikan when an external id is given, AniList when an
/// AniList id or a title is given.
pub open spec fn provider_chain_spec(args: MetadataArgs) -> Seq<ProviderKind> {
    (if args.tmdb_id is Some {
        seq![ProviderKind::Tmdb]
    } else {
        Seq::empty()
    }) + (if args.mal_id is Some {
        seq![ProviderKind::Jikan]
    } else {
        Seq::empty()
    }) + (if args.anilist_id is Some || args.title is Some {
        seq![ProviderKind::Anilist]
    } else {
        Seq::empty()
    })
}

pub fn provider_chain(args: &MetadataArgs) -> (r: Vec<ProviderKind>)
    ensures
        r@ == provider_chain_spec(*args),
{
    let mut r: Vec<ProviderKind> = Vec::new();
    if args.tmdb_id.is_some() {
        r.push(ProviderKind::Tmdb);
    }
    if args.mal_id.is_some() {
        r.push(ProviderKind::Jikan);
    }
    if args.anilist_id.is_some() || args.title.is_some() {
        r.push(ProviderKind::Anilist);
    }
    proof {
        assert(r@ =~= provider_chain_spec(*args));
    }
    r
}

/// What one provider attempt came to. Upstream misses and protocol
/// failures are soft: the chain advances past them. Invalid input is not.
#[derive(Debug, Clone, PartialEq)]
pub enum AttemptOutcome {
    Success(UnifiedMetadata),
    NotFound,
    ProtocolError,
    BadInput,
}

/// One attempted provider with its outcome.
#[derive(Debug, Clone, PartialEq)]
pub struct ProviderAttempt {
    pub provider: ProviderKind,
    pub outcome: AttemptOutcome,
}

/// The chain's verdict over the attempts in order: the first success
/// wins; invalid input escapes immediately; a chain that runs out is
/// exhausted.
pub open spec fn chain_result(at: Seq<ProviderAttempt>) -> Result<
    (UnifiedMetadata, ProviderKind),
    MetaError,
>
    decreases at.len(),
{
    if at.len() == 0 {
        Err(MetaError::Exhausted)
    } else {
        match at[0].outcome {
            AttemptOutcome::Success(u) => Ok((u, at[0].provider)),
            AttemptOutcome::BadInput => Err(MetaError::InvalidInput),
            _ => chain_result(at.skip(1)),
        }
    }
}

/// Applies the fallback rule to the attempts, in order.
#[verifier::loop_isolation(false)]
pub fn select_metadata(attempts: Vec<ProviderAttempt>) -> (r: Result<
    (UnifiedMetadata, ProviderKind),
    MetaError,
>)
    ensures
        r == chain_result(attempts@),
{
    let ghost orig = attempts@;
    let mut attempts = attempts;
    while attempts.len() > 0
        invariant
            chain_result(orig) == chain_result(attempts@),
        decreases attempts.len(),
    {
        let ghost before = attempts@;
        let a = attempts.remove(0);
        proof {
            assert(a == before[0]);
            assert(before.remove(0) =~= before.skip(1));
        }
        match a.outcome {
            AttemptOutcome::Success(u) => {
                return Ok((u, a.provider));
            },
            AttemptOutcome::BadInput => {
                return Err(MetaError::InvalidInput);
            },
            _ => {},
        }
    }
    proof {
        assert(attempts@.len() == 0);
    }
    Err(MetaError::Exhausted)
}

/// The fallback law: when the first attempt is an eligible provider that
/// failed softly and the second one succeeded, the chain's verdict is the
/// second provider's record. In particular, with a TMDB id set and
/// failing and an external id set and succeeding, the final result equals
/// the Jikan-mapped record.
pub proof fn lemma_orchestrator_fallback(
    args: MetadataArgs,
    tmdb_out: AttemptOutcome,
    jikan_meta: UnifiedMetadata,
    rest: Seq<ProviderAttempt>,
)
    requires
        args.tmdb_id is Some,
        args.mal_id is Some,
        tmdb_out is NotFound || tmdb_out is ProtocolError,
    ensures
        provider_chain_spec(args)[0] == ProviderKind::Tmdb,
        provider_chain_spec(args)[1] == ProviderKind::Jikan,
        chain_result(
            seq![
                ProviderAttempt { provider: ProviderKind::Tmdb, outcome: tmdb_out },
                ProviderAttempt {
                    provider: ProviderKind::Jikan,
                    outcome: AttemptOutcome::Success(jikan_meta),
                },
            ] + rest,
        ) == Ok::<(UnifiedMetadata, ProviderKind), MetaError>(
            (jikan_meta, ProviderKind::Jikan),
        ),
{
    let at = seq![
        ProviderAttempt { provider: ProviderKind::Tmdb, outcome: tmdb_out },
        ProviderAttempt {
            provider: ProviderKind::Jikan,
            outcome: AttemptOutcome::Success(jikan_meta),
        },
    ] + rest;
    assert(at[0].outcome is NotFound || at[0].outcome is ProtocolError);
    assert(at.skip(1)[0].outcome == AttemptOutcome::Success(jikan_meta));
    assert(chain_result(at) == chain_result(at.skip(1)));
}

} // verus!
