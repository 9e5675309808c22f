use housou::MetaError;
use housou::model::Item;
use housou::seasonal::{
    assemble_keyed_items, is_future_request, months_for_season, season_for_month,
    season_keywords, season_to_num, FetchOutcome, KeyedFetch,
};

fn item(title: &str) -> Item {
    Item {
        title: title.to_string(),
        ..Default::default()
    }
}

#[test]
fn test_season_to_num() {
    assert_eq!(season_to_num("Winter"), 1);
    assert_eq!(season_to_num("Spring"), 2);
    assert_eq!(season_to_num("Summer"), 3);
    assert_eq!(season_to_num("Autumn"), 4);
    assert_eq!(season_to_num("anything"), 0);
}

#[test]
fn test_season_for_month() {
    assert_eq!(season_for_month(1), "Winter");
    assert_eq!(season_for_month(3), "Winter");
    assert_eq!(season_for_month(4), "Spring");
    assert_eq!(season_for_month(9), "Summer");
    assert_eq!(season_for_month(12), "Autumn");
    assert_eq!(season_for_month(0), "Winter");
}

#[test]
fn test_months_for_winter() {
    assert_eq!(months_for_season(Some("Winter")), vec![1, 2, 3]);
    assert_eq!(months_for_season(Some("Spring")), vec![4, 5, 6]);
    assert_eq!(months_for_season(Some("Summer")), vec![7, 8, 9]);
    assert_eq!(months_for_season(Some("Autumn")), vec![10, 11, 12]);
    assert_eq!(
        months_for_season(None),
        vec![1, 2, 3, 4, 5, 6, 7, 8, 9, 10, 11, 12]
    );
}

#[test]
fn test_season_keywords() {
    assert_eq!(season_keywords(Some("Winter")), vec!["winter".to_string()]);
    // The live source calls the fourth season "fall".
    assert_eq!(season_keywords(Some("Autumn")), vec!["fall".to_string()]);
    assert_eq!(
        season_keywords(None),
        vec![
            "winter".to_string(),
            "spring".to_string(),
            "summer".to_string(),
            "fall".to_string()
        ]
    );
}

#[test]
fn test_future_classification() {
    // A later year is future, season or not.
    assert!(is_future_request(2026, None, 2025, "Summer"));
    assert!(is_future_request(2026, Some("Winter"), 2025, "Summer"));
    // The current year with a later season is future.
    assert!(is_future_request(2025, Some("Autumn"), 2025, "Summer"));
    // The current year with the exact current season is not.
    assert!(!is_future_request(2025, Some("Summer"), 2025, "Summer"));
    // The current year with no season is not.
    assert!(!is_future_request(2025, None, 2025, "Summer"));
    // Past years never are.
    assert!(!is_future_request(2020, Some("Autumn"), 2025, "Winter"));
}

#[test]
fn test_assemble_orders_by_month_not_completion() {
    // Results arrive with month 3 first; output is still month order.
    let fetches = vec![
        KeyedFetch {
            key: 3,
            outcome: FetchOutcome::Found(vec![item("march-show")]),
        },
        KeyedFetch {
            key: 1,
            outcome: FetchOutcome::Found(vec![item("january-show")]),
        },
        KeyedFetch {
            key: 2,
            outcome: FetchOutcome::Found(vec![item("february-show")]),
        },
    ];
    let items = assemble_keyed_items(fetches).unwrap();
    let titles: Vec<&str> = items.iter().map(|i| i.title.as_str()).collect();
    assert_eq!(titles, vec!["january-show", "february-show", "march-show"]);
}

#[test]
fn test_assemble_404_contributes_nothing() {
    let fetches = vec![
        KeyedFetch {
            key: 1,
            outcome: FetchOutcome::Found(vec![item("kept")]),
        },
        KeyedFetch {
            key: 2,
            outcome: FetchOutcome::Missing,
        },
        KeyedFetch {
            key: 3,
            outcome: FetchOutcome::Found(vec![]),
        },
    ];
    let items = assemble_keyed_items(fetches).unwrap();
    assert_eq!(items.len(), 1);
    assert_eq!(items[0].title, "kept");
}

#[test]
fn test_assemble_failure_fails_whole_call() {
    let fetches = vec![
        KeyedFetch {
            key: 1,
            outcome: FetchOutcome::Found(vec![item("fine")]),
        },
        KeyedFetch {
            key: 2,
            outcome: FetchOutcome::Failed,
        },
    ];
    assert_eq!(
        assemble_keyed_items(fetches),
        Err(MetaError::UpstreamProtocolError)
    );
}
