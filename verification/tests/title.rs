use housou::title::normalize_title;

#[test]
fn test_normalize_title() {
    let cases = vec![
        // Basic cases
        ("One Piece", "One Piece"),
        ("Title-Something", "Title - Something"),
        // Japanese season formats
        ("Title 第1期", "Title"),
        ("Title 第2クール", "Title"),
        // English season formats
        ("Title Season 1", "Title"),
        ("Title 2nd Season", "Title"),
        ("Title Season 1 (2023)", "Title"),
        ("Title - Season 1", "Title"),
        // Roman numerals
        ("Title Ⅱ", "Title"),
        ("Sword Art Online Ⅱ", "Sword Art Online"),
        // Year suffix
        ("Title (2023)", "Title"),
        ("Title (2023) Season 1", "Title"),
        ("Steins;Gate (2011)", "Steins;Gate"),
        // Spacing normalization
        ("Title  Season  1", "Title"),
        ("  Test  Title  ", "Test Title"),
        ("Title   With    Many   Spaces", "Title With Many Spaces"),
        // Real-world titles
        ("Attack on Titan Season 3", "Attack on Titan"),
        ("My Hero Academia 第2期", "My Hero Academia"),
        (
            "Fullmetal Alchemist: Brotherhood",
            "Fullmetal Alchemist: Brotherhood",
        ),
        ("One Piece - 1000", "One Piece - 1000"),
        (
            "Demon Slayer: Kimetsu no Yaiba Season 2",
            "Demon Slayer: Kimetsu no Yaiba",
        ),
    ];

    for (input, expected) in cases {
        assert_eq!(
            normalize_title(input),
            expected,
            "Failed for input: {}",
            input
        );
    }
}

#[test]
fn test_normalize_title_glued_markers() {
    // Japanese titles are routinely written with no space before a season
    // marker; a marker glued to the last word is stripped all the same.
    let cases = vec![
        ("Title第2期", "Title"),
        ("Title第2クール", "Title"),
        ("TitleⅡ", "Title"),
        ("Title(2023)", "Title"),
        ("My Hero Academia第2期", "My Hero Academia"),
        ("TitleSeason2", "Title"),
        ("Title2ndSeason", "Title"),
        // The two-token forms glued to the preceding word.
        ("TitleSeason 1", "Title"),
        ("Title2nd Season", "Title"),
        // Repeated glued markers all come off.
        ("TitleⅡ(2023)", "Title"),
        ("Title第1期第2期", "Title"),
        // Digits or ordinary words alone are not markers.
        ("Q10", "Q10"),
        ("Brotherhood", "Brotherhood"),
    ];
    for (input, expected) in cases {
        assert_eq!(
            normalize_title(input),
            expected,
            "Failed for input: {}",
            input
        );
    }
}

#[test]
fn test_normalize_title_idempotent_on_samples() {
    let inputs = vec![
        "Attack on Titan Season 3",
        "Sword Art Online Ⅱ",
        "Title - Season 1",
        "One Piece - 1000",
        "  Test  Title  ",
        "Title (2023) Season 1",
        "My Hero Academia 第2期",
        "Title第2期",
        "TitleⅡ(2023)",
        "Title2nd Season",
    ];
    for input in inputs {
        let once = normalize_title(input);
        let twice = normalize_title(&once);
        assert_eq!(once, twice, "Failed for input: {}", input);
    }
}
