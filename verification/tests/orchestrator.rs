use housou::MetaError;
use housou::model::UnifiedMetadata;
use housou::orchestrator::{
    provider_chain, select_metadata, AttemptOutcome, MetadataArgs, ProviderAttempt, ProviderKind,
};

fn meta(id: &str) -> UnifiedMetadata {
    UnifiedMetadata {
        id: id.to_string(),
        ..Default::default()
    }
}

#[test]
fn test_provider_chain_order() {
    let args = MetadataArgs {
        tmdb_id: Some("tv/1".to_string()),
        mal_id: Some("5".to_string()),
        anilist_id: None,
        title: Some("Some Show".to_string()),
        year: None,
    };
    assert_eq!(
        provider_chain(&args),
        vec![ProviderKind::Tmdb, ProviderKind::Jikan, ProviderKind::Anilist]
    );

    let only_title = MetadataArgs {
        title: Some("Some Show".to_string()),
        ..Default::default()
    };
    assert_eq!(provider_chain(&only_title), vec![ProviderKind::Anilist]);

    let nothing = MetadataArgs::default();
    assert!(provider_chain(&nothing).is_empty());
}

#[test]
fn test_fallback_first_failure_second_success() {
    // A failing first provider with an id set, and a succeeding second:
    // the final result is the second provider's record.
    let attempts = vec![
        ProviderAttempt {
            provider: ProviderKind::Tmdb,
            outcome: AttemptOutcome::ProtocolError,
        },
        ProviderAttempt {
            provider: ProviderKind::Jikan,
            outcome: AttemptOutcome::Success(meta("1535")),
        },
    ];
    assert_eq!(
        select_metadata(attempts),
        Ok((meta("1535"), ProviderKind::Jikan))
    );
}

#[test]
fn test_first_success_short_circuits() {
    let attempts = vec![
        ProviderAttempt {
            provider: ProviderKind::Tmdb,
            outcome: AttemptOutcome::Success(meta("tv/1/season/1")),
        },
        ProviderAttempt {
            provider: ProviderKind::Jikan,
            outcome: AttemptOutcome::Success(meta("5")),
        },
    ];
    assert_eq!(
        select_metadata(attempts),
        Ok((meta("tv/1/season/1"), ProviderKind::Tmdb))
    );
}

#[test]
fn test_invalid_input_escapes_immediately() {
    let attempts = vec![
        ProviderAttempt {
            provider: ProviderKind::Tmdb,
            outcome: AttemptOutcome::BadInput,
        },
        ProviderAttempt {
            provider: ProviderKind::Jikan,
            outcome: AttemptOutcome::Success(meta("5")),
        },
    ];
    assert_eq!(select_metadata(attempts), Err(MetaError::InvalidInput));
}

#[test]
fn test_exhausted_when_all_fail_or_none_eligible() {
    let attempts = vec![
        ProviderAttempt {
            provider: ProviderKind::Tmdb,
            outcome: AttemptOutcome::NotFound,
        },
        ProviderAttempt {
            provider: ProviderKind::Anilist,
            outcome: AttemptOutcome::ProtocolError,
        },
    ];
    assert_eq!(select_metadata(attempts), Err(MetaError::Exhausted));
    assert_eq!(select_metadata(vec![]), Err(MetaError::Exhausted));
}
