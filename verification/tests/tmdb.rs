use housou::MetaError;
use housou::model::{
    UnifiedMetadata, UniversalCharacter, UniversalCoverImage, UniversalStaff, UniversalTitle,
};
use housou::tmdb::{
    extract_numeric_id, find_best_rating, first_nonempty, movie_to_unified, parse_tmdb_id,
    select_search_result, tmdb_plan, tv_to_unified, CastRecord, CreditsRecord, CrewRecord,
    EpisodeRecord, MediaType, MovieRecord, RatingEntry, SearchEntry, SearchKind, TmdbPlan,
    TvSeasonRecord, TvShowRecord,
};

#[test]
fn test_parse_tmdb_id() {
    // TV Show Cases
    assert_eq!(
        parse_tmdb_id("tv/123").unwrap(),
        (
            "123".to_string(),
            MediaType::Tv {
                show_id: "123".to_string(),
                season: 1
            }
        )
    );
    assert_eq!(
        parse_tmdb_id("tv/123/season/2").unwrap(),
        (
            "123".to_string(),
            MediaType::Tv {
                show_id: "123".to_string(),
                season: 2
            }
        )
    );
    assert_eq!(
        parse_tmdb_id("/tv/123/season/2").unwrap(),
        (
            "123".to_string(),
            MediaType::Tv {
                show_id: "123".to_string(),
                season: 2
            }
        )
    );
    assert_eq!(
        parse_tmdb_id("tv/123/season/2/episode/5").unwrap(),
        (
            "123".to_string(),
            MediaType::Tv {
                show_id: "123".to_string(),
                season: 2
            }
        )
    );

    // Movie Cases
    assert_eq!(
        parse_tmdb_id("movie/456").unwrap(),
        ("456".to_string(), MediaType::Movie)
    );
    assert_eq!(
        parse_tmdb_id("456").unwrap(),
        ("456".to_string(), MediaType::Movie)
    );
    assert_eq!(
        parse_tmdb_id("/movie/456").unwrap(),
        ("456".to_string(), MediaType::Movie)
    );

    // Slugged ID Cases
    assert_eq!(
        parse_tmdb_id("tv/123-show-name").unwrap(),
        (
            "123-show-name".to_string(),
            MediaType::Tv {
                show_id: "123-show-name".to_string(),
                season: 1
            }
        )
    );
    assert_eq!(
        parse_tmdb_id("tv/123-show-name/season/2").unwrap(),
        (
            "123-show-name".to_string(),
            MediaType::Tv {
                show_id: "123-show-name".to_string(),
                season: 2
            }
        )
    );
    assert_eq!(
        parse_tmdb_id("movie/456-movie-name").unwrap(),
        ("456-movie-name".to_string(), MediaType::Movie)
    );
    assert_eq!(
        parse_tmdb_id("456-movie-name").unwrap(),
        ("456-movie-name".to_string(), MediaType::Movie)
    );

    // Edge Cases
    assert!(parse_tmdb_id("tv").is_err());
    // "abc" is a valid ID string; only the season number must be an integer.
    assert_eq!(
        parse_tmdb_id("tv/abc").unwrap(),
        (
            "abc".to_string(),
            MediaType::Tv {
                show_id: "abc".to_string(),
                season: 1
            }
        )
    );
    assert!(parse_tmdb_id("tv/123/season/abc").is_err());
    assert!(parse_tmdb_id("").is_err());
    assert!(parse_tmdb_id("foo/bar").is_err());
}

#[test]
fn test_parse_tmdb_id_errors_are_invalid_input() {
    assert_eq!(parse_tmdb_id("tv/123/season/abc"), Err(MetaError::InvalidInput));
    assert_eq!(parse_tmdb_id(""), Err(MetaError::InvalidInput));
    assert_eq!(parse_tmdb_id("foo/bar"), Err(MetaError::InvalidInput));
}

#[test]
fn test_extract_numeric_id() {
    assert_eq!(extract_numeric_id("123-show-name"), Ok(123));
    assert_eq!(extract_numeric_id("456"), Ok(456));
    assert_eq!(extract_numeric_id("abc"), Err(MetaError::InvalidInput));
    assert_eq!(extract_numeric_id(""), Err(MetaError::InvalidInput));
    assert_eq!(extract_numeric_id("-slug"), Err(MetaError::InvalidInput));
}

#[test]
fn test_parse_tmdb_id_dangling_season_segment() {
    // A `season` segment without a number is not a season selector; the
    // season stays at its default.
    assert_eq!(
        parse_tmdb_id("tv/123/season").unwrap(),
        (
            "123".to_string(),
            MediaType::Tv {
                show_id: "123".to_string(),
                season: 1
            }
        )
    );
}

#[test]
fn test_tmdb_plan() {
    // A given id goes straight to the details calls.
    assert_eq!(
        tmdb_plan(Some("movie/456"), Some("ignored")),
        Ok(TmdbPlan::Direct("456".to_string(), MediaType::Movie))
    );
    // Without an id, the normalized title goes to the search.
    assert_eq!(
        tmdb_plan(None, Some("Attack on Titan Season 3")),
        Ok(TmdbPlan::Search("Attack on Titan".to_string()))
    );
    // With neither, the input is invalid.
    assert_eq!(tmdb_plan(None, None), Err(MetaError::InvalidInput));
    // A malformed id is invalid even when a title could have been searched.
    assert_eq!(
        tmdb_plan(Some("tv/1/season/x"), Some("Fallback")),
        Err(MetaError::InvalidInput)
    );
}

#[test]
fn test_first_nonempty() {
    // Absent and empty certifications are passed over; the first real one wins.
    assert_eq!(
        first_nonempty(vec![None, Some("".to_string()), Some("PG-13".to_string())]),
        Some("PG-13".to_string())
    );
    assert_eq!(
        first_nonempty(vec![Some("G".to_string()), Some("R".to_string())]),
        Some("G".to_string())
    );
    assert_eq!(first_nonempty(vec![None, Some("".to_string())]), None);
    assert_eq!(first_nonempty(vec![]), None);
}

fn rating(country: Option<&str>, rating: Option<&str>) -> RatingEntry {
    RatingEntry {
        country: country.map(|s| s.to_string()),
        rating: rating.map(|s| s.to_string()),
    }
}

#[test]
fn test_find_best_rating() {
    let cases = vec![
        (
            vec![rating(Some("US"), Some("PG")), rating(Some("JP"), Some("G"))],
            Some("G".to_string()),
        ),
        (
            vec![
                rating(Some("UK"), Some("12")),
                rating(Some("US"), Some("PG-13")),
            ],
            Some("PG-13".to_string()),
        ),
        (
            vec![
                rating(Some("UK"), Some("15")),
                rating(Some("FR"), Some("12")),
            ],
            Some("15".to_string()),
        ),
        (vec![], None),
        (
            vec![rating(Some("JP"), None), rating(Some("US"), Some("R"))],
            Some("R".to_string()),
        ),
        (
            vec![
                rating(Some("JP"), None),
                rating(Some("US"), None),
                rating(Some("UK"), Some("18")),
            ],
            Some("18".to_string()),
        ),
    ];

    for (input, expected) in cases {
        let result = find_best_rating(&input);
        assert_eq!(result, expected);
    }
}

#[test]
fn test_movie_to_unified() {
    let movie = MovieRecord {
        id: Some(12345),
        title: Some("Test Movie".to_string()),
        poster_path: Some("/path/to/poster.jpg".to_string()),
        genres: Some(vec![
            Some("Action".to_string()),
            Some("Adventure".to_string()),
        ]),
        overview: Some("This is a test movie description.".to_string()),
        // Per-country certifications, already reduced to one rating each.
        release_dates: Some(vec![
            rating(Some("US"), Some("PG-13")),
            rating(Some("JP"), Some("G")),
        ]),
        credits: Some(CreditsRecord {
            cast: Some(vec![CastRecord {
                name: Some("Actor 1".to_string()),
                character: Some("Character 1".to_string()),
            }]),
            crew: Some(vec![CrewRecord {
                name: Some("Director 1".to_string()),
                job: Some("Director".to_string()),
                department: Some("Directing".to_string()),
            }]),
        }),
        production_companies: None,
        vote_average_hundredths: Some(850),
        status: Some("Released".to_string()),
        runtime: Some(120),
        adult: Some(false),
    };

    let unified = movie_to_unified(movie);

    let expected = UnifiedMetadata {
        id: "movie/12345".into(),
        title: UniversalTitle {
            native: Some("Test Movie".into()),
            ..Default::default()
        },
        cover_image: UniversalCoverImage {
            large: Some("https://image.tmdb.org/t/p/w500/path/to/poster.jpg".into()),
            extra_large: Some("https://image.tmdb.org/t/p/original/path/to/poster.jpg".into()),
        },
        average_score: Some(85),
        genres: vec!["Action".into(), "Adventure".into()],
        description: Some("This is a test movie description.".into()),
        studios: vec![],
        characters: vec![UniversalCharacter {
            name: "Character 1".into(),
            voice_actor: Some("Actor 1".into()),
            role: Some("Cast".into()),
        }],
        staff: vec![UniversalStaff {
            name: "Director 1".into(),
            role: "Director".into(),
            department: Some("Directing".into()),
        }],
        is_finished: true,
        runtime: Some(120),
        // Content rating prioritizes JP, then US, then first available.
        content_rating: Some("G".into()),
        ..Default::default()
    };

    assert_eq!(unified, expected);
}

fn create_credits(cast_name: Option<&str>, crew_name: Option<&str>) -> CreditsRecord {
    CreditsRecord {
        cast: cast_name.map(|n| {
            vec![CastRecord {
                name: Some(n.to_string()),
                character: Some("Character".to_string()),
            }]
        }),
        crew: crew_name.map(|n| {
            vec![CrewRecord {
                name: Some(n.to_string()),
                job: Some("Director".to_string()),
                department: Some("Directing".to_string()),
            }]
        }),
    }
}

#[test]
fn test_tv_to_unified_full_data() {
    let show = TvShowRecord {
        name: Some("Show Title".to_string()),
        poster_path: Some("/show_poster.jpg".to_string()),
        genres: Some(vec![Some("Action".to_string())]),
        production_companies: Some(vec![Some("Studio A".to_string())]),
        credits: Some(create_credits(Some("Show Actor"), Some("Show Director"))),
        content_ratings: None,
        status: Some("Ended".to_string()),
        episode_run_time: Some(vec![24]),
        id: Some(100),
        overview: Some("Show Overview".to_string()),
        number_of_seasons: Some(2),
        adult: Some(false),
        ..Default::default()
    };

    let season = TvSeasonRecord {
        name: Some("Season 1".to_string()),
        poster_path: Some("/season_poster.jpg".to_string()),
        episodes: Some(vec![EpisodeRecord {
            episode_number: Some(1),
            name: Some("Ep 1".to_string()),
            air_date: Some("2023-01-01".to_string()),
            overview: Some("Ep Overview".to_string()),
            ..Default::default()
        }]),
        season_number: Some(1),
        overview: Some("Season Overview".to_string()),
        credits: Some(create_credits(
            Some("Season Actor"),
            Some("Season Director"),
        )),
        ..Default::default()
    };

    let result = tv_to_unified(show, season);

    assert_eq!(result.id, "tv/100/season/1");
    assert_eq!(
        result.title.native,
        Some("Show Title : Season 1".to_string())
    );
    // Season poster takes precedence.
    assert!(result
        .cover_image
        .large
        .unwrap()
        .contains("/season_poster.jpg"));
    assert_eq!(result.genres, vec!["Action".to_string()]);
    assert_eq!(result.studios, vec!["Studio A".to_string()]);
    // Season credits win over the show's.
    assert_eq!(
        result.characters[0].voice_actor,
        Some("Season Actor".to_string())
    );
    assert_eq!(result.staff[0].name, "Season Director".to_string());
    assert_eq!(result.description, Some("Season Overview".to_string()));
    assert_eq!(result.runtime, Some(24)); // Show runtime
    assert!(result.is_finished);
}

#[test]
fn test_tv_to_unified_credits_fallback() {
    // Case 1: Season has credits -> expect Season credits
    let show_with_credits = TvShowRecord {
        credits: Some(create_credits(Some("Show Actor"), None)),
        ..Default::default()
    };
    let season_with_credits = TvSeasonRecord {
        credits: Some(create_credits(Some("Season Actor"), None)),
        ..Default::default()
    };
    let result1 = tv_to_unified(show_with_credits.clone(), season_with_credits);
    assert_eq!(
        result1.characters[0].voice_actor,
        Some("Season Actor".to_string())
    );

    // Case 2: Season has NO credits -> expect Show credits
    let season_no_credits = TvSeasonRecord {
        credits: None,
        ..Default::default()
    };
    let result2 = tv_to_unified(show_with_credits, season_no_credits);
    assert_eq!(
        result2.characters[0].voice_actor,
        Some("Show Actor".to_string())
    );
}

#[test]
fn test_tv_to_unified_poster_fallback() {
    // Case 1: Season has poster -> expect Season poster
    let show = TvShowRecord {
        poster_path: Some("/show.jpg".to_string()),
        ..Default::default()
    };
    let season = TvSeasonRecord {
        poster_path: Some("/season.jpg".to_string()),
        ..Default::default()
    };
    let result = tv_to_unified(show.clone(), season);
    assert!(result.cover_image.large.unwrap().contains("/season.jpg"));

    // Case 2: Season has NO poster -> expect Show poster
    let season_no_poster = TvSeasonRecord {
        poster_path: None,
        ..Default::default()
    };
    let result2 = tv_to_unified(show, season_no_poster);
    assert!(result2.cover_image.large.unwrap().contains("/show.jpg"));
}

#[test]
fn test_tv_to_unified_runtime_logic() {
    // Case 1: Show has runtime -> use it
    let show = TvShowRecord {
        episode_run_time: Some(vec![30]),
        ..Default::default()
    };
    let season = TvSeasonRecord {
        episodes: Some(vec![EpisodeRecord {
            ..Default::default()
        }]),
        ..Default::default()
    };
    let result = tv_to_unified(show.clone(), season.clone());
    assert_eq!(result.runtime, Some(30));

    // Case 2: Show has NO runtime -> None
    let show_no_runtime = TvShowRecord {
        episode_run_time: None,
        ..Default::default()
    };
    let result2 = tv_to_unified(show_no_runtime, season);
    assert_eq!(result2.runtime, None);
}

#[test]
fn test_tv_to_unified_season_genres_win() {
    // A season with genres of its own keeps them; an empty season list
    // inherits the parent's, and total_seasons always comes from the parent.
    let show = TvShowRecord {
        genres: Some(vec![Some("Action".to_string())]),
        number_of_seasons: Some(4),
        ..Default::default()
    };
    let season_own = TvSeasonRecord {
        genres: vec![Some("Romance".to_string())],
        ..Default::default()
    };
    let merged = tv_to_unified(show.clone(), season_own);
    assert_eq!(merged.genres, vec!["Romance".to_string()]);
    assert_eq!(merged.total_seasons, Some(4));

    let season_empty = TvSeasonRecord::default();
    let merged2 = tv_to_unified(show, season_empty);
    assert_eq!(merged2.genres, vec!["Action".to_string()]);
    assert_eq!(merged2.total_seasons, Some(4));
}

fn entry(kind: SearchKind, id: Option<i64>, date: Option<&str>) -> SearchEntry {
    SearchEntry {
        kind,
        id,
        date: date.map(|s| s.to_string()),
    }
}

#[test]
fn test_select_search_result() {
    // Exact year wins over an earlier near miss.
    let results = vec![
        entry(SearchKind::TvResult, Some(10), Some("2019-04-01")),
        entry(SearchKind::MovieResult, Some(20), Some("2020-07-01")),
    ];
    let picked = select_search_result(&results, Some(2020)).unwrap();
    assert_eq!(picked.0, "20".to_string());
    assert_eq!(picked.1, MediaType::Movie);

    // Within one year when no exact match exists.
    let near = vec![
        entry(SearchKind::OtherResult, Some(1), Some("2020-01-01")),
        entry(SearchKind::TvResult, Some(30), Some("2019-10-01")),
    ];
    let picked2 = select_search_result(&near, Some(2020)).unwrap();
    assert_eq!(picked2.0, "30".to_string());
    assert_eq!(
        picked2.1,
        MediaType::Tv {
            show_id: "30".to_string(),
            season: 1
        }
    );

    // No target year: the first movie or TV entry wins.
    let any = vec![
        entry(SearchKind::OtherResult, Some(1), None),
        entry(SearchKind::TvResult, None, None),
        entry(SearchKind::MovieResult, Some(40), None),
    ];
    let picked3 = select_search_result(&any, None).unwrap();
    assert_eq!(picked3.0, "40".to_string());

    // Nothing eligible.
    let none = vec![entry(SearchKind::OtherResult, Some(1), Some("2020-01-01"))];
    assert_eq!(
        select_search_result(&none, Some(2020)),
        Err(MetaError::NotFoundUpstream)
    );
}
