use housou::jikan::{
    convert_to_item, convert_to_metadata, fetch_season, JikanAnimeRecord, JikanImageEntry,
};
use housou::model::ItemType;

fn record(mal_id: i32, title: &str) -> JikanAnimeRecord {
    JikanAnimeRecord {
        mal_id,
        url: format!("https://myanimelist.net/anime/{}", mal_id),
        title: title.to_string(),
        status: "Currently Airing".to_string(),
        ..Default::default()
    }
}

#[test]
fn test_convert_to_metadata_fields() {
    let anime = JikanAnimeRecord {
        mal_id: 5114,
        url: "https://myanimelist.net/anime/5114".to_string(),
        images: vec![
            JikanImageEntry {
                key: "webp".to_string(),
                image_url: Some("https://cdn.example/webp.webp".to_string()),
                large_image_url: Some("https://cdn.example/webp_l.webp".to_string()),
            },
            JikanImageEntry {
                key: "jpg".to_string(),
                image_url: Some("https://cdn.example/img.jpg".to_string()),
                large_image_url: Some("https://cdn.example/img_l.jpg".to_string()),
            },
        ],
        title: "Hagane no Renkinjutsushi".to_string(),
        title_english: Some("Fullmetal Alchemist: Brotherhood".to_string()),
        title_japanese: Some("鋼の錬金術師".to_string()),
        episodes: Some(64),
        status: "Finished Airing".to_string(),
        score_hundredths: Some(850),
        synopsis: Some("<b>Two</b> brothers<br />search.".to_string()),
        studios: vec!["Bones".to_string()],
        genres: vec!["Action".to_string(), "Adventure".to_string()],
        ..Default::default()
    };

    let unified = convert_to_metadata(anime);

    assert_eq!(unified.id, "5114");
    assert_eq!(
        unified.title.romaji,
        Some("Hagane no Renkinjutsushi".to_string())
    );
    assert_eq!(
        unified.title.english,
        Some("Fullmetal Alchemist: Brotherhood".to_string())
    );
    assert_eq!(unified.title.native, Some("鋼の錬金術師".to_string()));
    // The jpg entry wins over webp; large comes from large_image_url.
    assert_eq!(
        unified.cover_image.large,
        Some("https://cdn.example/img_l.jpg".to_string())
    );
    assert_eq!(
        unified.cover_image.extra_large,
        Some("https://cdn.example/img.jpg".to_string())
    );
    // 8.5 on the 0-10 scale becomes 85.
    assert_eq!(unified.average_score, Some(85));
    assert_eq!(unified.episodes, Some(64));
    assert_eq!(unified.description, Some("Two brotherssearch.".to_string()));
    assert_eq!(unified.studios, vec!["Bones".to_string()]);
    assert!(unified.is_finished);
    assert_eq!(unified.total_seasons, None);
    assert_eq!(unified.runtime, None);
}

#[test]
fn test_convert_to_metadata_score_rounds_half_up() {
    // 8.55 on the 0-10 scale, times ten, rounds to 86 (not truncated to 85).
    let mut anime = record(20, "Some Show");
    anime.score_hundredths = Some(855);
    let unified = convert_to_metadata(anime);
    assert_eq!(unified.average_score, Some(86));

    let mut low = record(21, "Other Show");
    low.score_hundredths = Some(854);
    assert_eq!(convert_to_metadata(low).average_score, Some(85));

    let mut none = record(22, "Scoreless Show");
    none.score_hundredths = None;
    assert_eq!(convert_to_metadata(none).average_score, None);
}

#[test]
fn test_convert_to_metadata_webp_fallback() {
    let anime = JikanAnimeRecord {
        mal_id: 1,
        images: vec![JikanImageEntry {
            key: "webp".to_string(),
            image_url: Some("https://cdn.example/only.webp".to_string()),
            large_image_url: None,
        }],
        status: "Currently Airing".to_string(),
        ..Default::default()
    };
    let unified = convert_to_metadata(anime);
    assert_eq!(unified.cover_image.large, None);
    assert_eq!(
        unified.cover_image.extra_large,
        Some("https://cdn.example/only.webp".to_string())
    );
    assert!(!unified.is_finished);
}

#[test]
fn test_convert_to_item_japanese_title_preferred() {
    let mut anime = record(100, "Shingeki no Kyojin");
    anime.title_english = Some("Attack on Titan".to_string());
    anime.title_japanese = Some("進撃の巨人".to_string());
    anime.type_field = Some("TV".to_string());
    anime.synopsis = Some("Giant <i>walls</i>.".to_string());
    anime.aired_from = Some("2013-04-07T00:00:00+00:00".to_string());

    let item = convert_to_item(anime);

    assert_eq!(item.title, "進撃の巨人");
    // The default (romaji) title folds into the English list when distinct.
    assert_eq!(
        item.title_translate.en,
        vec![
            "Attack on Titan".to_string(),
            "Shingeki no Kyojin".to_string()
        ]
    );
    assert_eq!(item.title_translate.ja, vec!["進撃の巨人".to_string()]);
    assert_eq!(item.type_field, ItemType::Tv);
    assert_eq!(item.lang, "ja");
    assert_eq!(item.begin, "2013-04-07T00:00:00+00:00");
    assert_eq!(item.end, "");
    assert_eq!(item.comment, Some("Giant walls.".to_string()));
    assert_eq!(item.sites.len(), 1);
    assert_eq!(item.sites[0].site, "mal");
    assert_eq!(item.sites[0].id, Some("100".to_string()));
}

#[test]
fn test_convert_to_item_type_mapping() {
    for (src, expected) in vec![
        (Some("TV"), ItemType::Tv),
        (Some("Movie"), ItemType::Movie),
        (Some("OVA"), ItemType::Ova),
        (Some("ONA"), ItemType::Web),
        (Some("Special"), ItemType::Tv),
        (None, ItemType::Tv),
    ] {
        let mut anime = record(7, "Some Show");
        anime.type_field = src.map(|s| s.to_string());
        let item = convert_to_item(anime);
        assert_eq!(item.type_field, expected);
    }
}

#[test]
fn test_fetch_season_dedup_first_wins() {
    let listing = vec![
        record(1, "First"),
        record(1, "Duplicate of First"),
        record(2, "Second"),
    ];
    let items = fetch_season(Some(listing));
    assert_eq!(items.len(), 2);
    assert_eq!(items[0].title, "First");
    assert_eq!(items[1].title, "Second");
}

#[test]
fn test_fetch_season_missing_listing_is_empty() {
    let items = fetch_season(None);
    assert!(items.is_empty());
}
