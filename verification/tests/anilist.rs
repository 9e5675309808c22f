use housou::MetaError;
use housou::anilist::{
    anilist_request, anilist_to_unified, AniListCharacterEdge, AniListCharacterNode,
    AniListCharacters, AniListCoverImage, AniListMedia, AniListName, AniListStudioNode,
    AniListStudios, AniListTitle, AniListVoiceActor, AnilistQuery,
};

fn name(full: &str) -> AniListName {
    AniListName {
        full: Some(full.to_string()),
    }
}

#[test]
fn test_anilist_to_unified_full() {
    let media = AniListMedia {
        id: 12345,
        title: Some(AniListTitle {
            romaji: Some("Test Anime".to_string()),
            english: Some("Test Anime English".to_string()),
            native: Some("テストアニメ".to_string()),
        }),
        cover_image: Some(AniListCoverImage {
            large: Some("https://example.com/large.jpg".to_string()),
            extra_large: Some("https://example.com/xlarge.jpg".to_string()),
        }),
        average_score: Some(85),
        episodes: Some(12),
        status: Some("FINISHED".to_string()),
        genres: Some(vec![
            Some("Action".to_string()),
            Some("Adventure".to_string()),
        ]),
        description: Some("This is a test description.".to_string()),
        studios: Some(AniListStudios {
            nodes: Some(vec![AniListStudioNode {
                name: Some("Test Studio".to_string()),
            }]),
        }),
        characters: Some(AniListCharacters {
            edges: Some(vec![AniListCharacterEdge {
                role: Some("MAIN".to_string()),
                node: Some(AniListCharacterNode {
                    name: Some(name("Test Character")),
                }),
                voice_actors: Some(vec![AniListVoiceActor {
                    name: Some(name("Test Voice Actor")),
                }]),
            }]),
        }),
    };

    let unified = anilist_to_unified(media);

    assert_eq!(unified.id, "12345");
    assert_eq!(unified.title.romaji, Some("Test Anime".to_string()));
    assert_eq!(unified.title.english, Some("Test Anime English".to_string()));
    assert_eq!(unified.title.native, Some("テストアニメ".to_string()));
    assert_eq!(
        unified.cover_image.large,
        Some("https://example.com/large.jpg".to_string())
    );
    assert_eq!(
        unified.cover_image.extra_large,
        Some("https://example.com/xlarge.jpg".to_string())
    );
    assert_eq!(unified.average_score, Some(85));
    assert_eq!(unified.episodes, Some(12));
    assert!(unified.is_finished);
    assert_eq!(
        unified.genres,
        vec!["Action".to_string(), "Adventure".to_string()]
    );
    assert_eq!(
        unified.description,
        Some("This is a test description.".to_string())
    );
    assert_eq!(unified.studios, vec!["Test Studio".to_string()]);
    assert_eq!(unified.characters.len(), 1);
    assert_eq!(unified.characters[0].name, "Test Character");
    assert_eq!(unified.characters[0].role, Some("MAIN".to_string()));
    assert_eq!(
        unified.characters[0].voice_actor,
        Some("Test Voice Actor".to_string())
    );

    // Fields that are always empty/None for this provider.
    assert!(unified.staff.is_empty());
    assert!(unified.episodes_list.is_empty());
    assert_eq!(unified.total_seasons, None);
    assert_eq!(unified.current_season, None);
    assert_eq!(unified.runtime, None);
    assert_eq!(unified.content_rating, None);
}

#[test]
fn test_anilist_to_unified_minimal() {
    let media = AniListMedia {
        id: 67890,
        title: Some(AniListTitle {
            romaji: Some("Minimal Anime".to_string()),
            english: None,
            native: None,
        }),
        cover_image: Some(AniListCoverImage {
            large: None,
            extra_large: None,
        }),
        status: Some("RELEASING".to_string()),
        ..Default::default()
    };

    let unified = anilist_to_unified(media);

    assert_eq!(unified.id, "67890");
    assert_eq!(unified.title.romaji, Some("Minimal Anime".to_string()));
    assert_eq!(unified.title.english, None);
    assert_eq!(unified.title.native, None);
    assert_eq!(unified.cover_image.large, None);
    assert_eq!(unified.average_score, None);
    assert_eq!(unified.episodes, None);
    assert!(unified.genres.is_empty());
    assert_eq!(unified.description, None);
    assert!(unified.studios.is_empty());
    assert!(unified.characters.is_empty());
    assert!(!unified.is_finished); // RELEASING -> false
}

#[test]
fn test_anilist_to_unified_arrays() {
    let media = AniListMedia {
        id: 111,
        title: Some(AniListTitle {
            romaji: Some("Array Test".to_string()),
            english: None,
            native: None,
        }),
        // Mixed payload types: non-strings arrive as absent entries.
        genres: Some(vec![
            Some("Action".to_string()),
            None,
            None,
            Some("Comedy".to_string()),
        ]),
        studios: Some(AniListStudios {
            nodes: Some(vec![
                AniListStudioNode {
                    name: Some("Studio A".to_string()),
                },
                AniListStudioNode { name: None },
                AniListStudioNode { name: None },
            ]),
        }),
        characters: Some(AniListCharacters {
            edges: Some(vec![
                AniListCharacterEdge {
                    role: Some("MAIN".to_string()),
                    node: Some(AniListCharacterNode {
                        name: Some(name("Char 1")),
                    }),
                    voice_actors: Some(vec![]),
                },
                AniListCharacterEdge {
                    role: Some("SUPPORTING".to_string()),
                    node: Some(AniListCharacterNode {
                        name: Some(name("Char 2")),
                    }),
                    voice_actors: None,
                },
                AniListCharacterEdge {
                    role: None,
                    node: None,
                    voice_actors: Some(vec![AniListVoiceActor {
                        name: Some(name("Actor 3")),
                    }]),
                },
            ]),
        }),
        ..Default::default()
    };

    let unified = anilist_to_unified(media);

    // Genres keep only the string entries.
    assert_eq!(
        unified.genres,
        vec!["Action".to_string(), "Comedy".to_string()]
    );

    // Studios without a name are skipped.
    assert_eq!(unified.studios, vec!["Studio A".to_string()]);

    assert_eq!(unified.characters.len(), 3);

    // Char 1: empty voice actor list
    assert_eq!(unified.characters[0].name, "Char 1");
    assert_eq!(unified.characters[0].voice_actor, None);

    // Char 2: absent voice actor list
    assert_eq!(unified.characters[1].name, "Char 2");
    assert_eq!(unified.characters[1].voice_actor, None);

    // Char 3: absent node -> name becomes empty string
    assert_eq!(unified.characters[2].name, "");
    assert_eq!(unified.characters[2].role, None);
    assert_eq!(
        unified.characters[2].voice_actor,
        Some("Actor 3".to_string())
    );
}

#[test]
fn test_anilist_request_plan() {
    assert_eq!(anilist_request(Some("123"), None), Ok(AnilistQuery::ById(123)));
    assert_eq!(
        anilist_request(Some("not-a-number"), Some("Fallback")),
        Err(MetaError::InvalidInput)
    );
    assert_eq!(
        anilist_request(None, Some("Some Title")),
        Ok(AnilistQuery::ByTitle("Some Title".to_string()))
    );
    assert_eq!(anilist_request(None, None), Err(MetaError::InvalidInput));
}
