//! The Jikan resolver logic: mapping a by-id record onto the unified
//! schema, and mapping a season listing onto schedule items with
//! first-occurrence deduplication by external id.

use vstd::prelude::*;
use crate::model::{
    Item, ItemType, Site, TitleTranslate, UnifiedMetadata, UniversalCoverImage, UniversalTitle,
};
use crate::text::{
    clone_opt_string, dec_of_int, i64_to_string, opt_str_or_empty, str_to_chars, strip_html,
    strip_html_spec, chars_to_string, chars_eq_str, unwrap_or_empty,
};

verus! {

/// One image entry of the upstream record, keyed by format.
#[derive(Default, Debug, Clone, PartialEq)]
pub struct JikanImageEntry {
    pub key: String,
    pub image_url: Option<String>,
    pub large_image_url: Option<String>,
}

/// An anime record as the upstream catalog reports it.
/// `score_hundredths` holds the source's 0-10 score scaled by one hundred
/// (8.5 becomes 850).
#[derive(Default, Debug, Clone, PartialEq)]
pub struct JikanAnimeRecord {
    pub mal_id: i32,
    pub url: String,
    pub images: Vec<JikanImageEntry>,
    pub title: String,
    pub title_english: Option<String>,
    pub title_japanese: Option<String>,
    pub type_field: Option<String>,
    pub episodes: Option<i32>,
    pub status: String,
    pub aired_from: Option<String>,
    pub aired_to: Option<String>,
    pub score_hundredths: Option<u16>,
    pub synopsis: Option<String>,
    pub broadcast: Option<String>,
    pub studios: Vec<String>,
    pub genres: Vec<String>,
}

/// The first image entry with the given key.
pub open spec fn first_image_for(images: Seq<JikanImageEntry>, key: Seq<char>) -> Option<
    JikanImageEntry,
>
    decreases images.len(),
{
    if images.len() == 0 {
        None
    } else if images[0].key@ == key {
        Some(images[0])
    } else {
        first_image_for(images.skip(1), key)
    }
}

/// The image entry the mapping reads: the `jpg` entry, else `webp`.
pub open spec fn picked_image(images: Seq<JikanImageEntry>) -> Option<JikanImageEntry> {
    match first_image_for(images, "jpg"@) {
        Some(e) => Some(e),
        None => first_image_for(images, "webp"@),
    }
}

/// The schedule-entry kind for an upstream type string.
pub open spec fn item_type_of(t: Option<String>) -> ItemType {
    match t {
        Some(s) => if s@ == "TV"@ {
            ItemType::Tv
        } else if s@ == "Movie"@ {
            ItemType::Movie
        } else if s@ == "OVA"@ {
            ItemType::Ova
        } else if s@ == "ONA"@ {
            ItemType::Web
        } else {
            ItemType::Tv
        },
        None => ItemType::Tv,
    }
}

/// The primary title: the Japanese one when non-empty, else the default.
pub open spec fn jikan_primary_title(a: JikanAnimeRecord) -> Seq<char> {
    match a.title_japanese {
        Some(j) => if j@.len() > 0 {
            j@
        } else {
            a.title@
        },
        None => a.title@,
    }
}

/// The English translation list: the English title when present, plus the
/// default title when it differs from a non-empty Japanese title.
pub open spec fn jikan_en_titles(a: JikanAnimeRecord) -> Seq<Seq<char>> {
    let base: Seq<Seq<char>> = match a.title_english {
        Some(e) => seq![e@],
        None => Seq::empty(),
    };
    if (a.title_japanese matches Some(j) && j@.len() > 0) && a.title@ != (
    a.title_japanese->Some_0)@ {
        base.push(a.title@)
    } else {
        base
    }
}

/// The Japanese translation list: the Japanese title when non-empty.
pub open spec fn jikan_ja_titles(a: JikanAnimeRecord) -> Seq<Seq<char>> {
    match a.title_japanese {
        Some(j) => if j@.len() > 0 {
            seq![j@]
        } else {
            Seq::empty()
        },
        None => Seq::empty(),
    }
}

/// What the schedule item mapped from record `a` looks like, field by
/// field.
pub open spec fn item_matches_record(it: Item, a: JikanAnimeRecord) -> bool {
    &&& it.title@ == jikan_primary_title(a)
    &&& it.title_translate.en.deep_view() == jikan_en_titles(a)
    &&& it.title_translate.ja.deep_view() == jikan_ja_titles(a)
    &&& it.title_translate.zh_hans@.len() == 0
    &&& it.title_translate.zh_hant@.len() == 0
    &&& it.type_field == item_type_of(a.type_field)
    &&& it.lang@ == "ja"@
    &&& it.official_site@ == a.url@
    &&& it.begin@ == opt_str_or_empty(a.aired_from)
    &&& it.end@ == opt_str_or_empty(a.aired_to)
    &&& (match (it.comment, a.synopsis) {
        (Some(c), Some(s)) => c@ == strip_html_spec(s@),
        (None, None) => true,
        _ => false,
    })
    &&& it.broadcast.deep_view() == a.broadcast.deep_view()
    &&& it.sites@.len() == 1
    &&& it.sites@[0].site@ == "mal"@
    &&& it.sites@[0].id.deep_view() == Some(dec_of_int(a.mal_id as int))
    &&& it.sites@[0].url.deep_view() == Some(a.url@)
    &&& it.sites@[0].begin is None
    &&& it.sites@[0].broadcast is None
    &&& it.sites@[0].comment is None
}

/// Strips markup from an optional text.
fn strip_html_opt(o: &Option<String>) -> (r: Option<String>)
    ensures
        match (r, o) {
            (Some(c), Some(s)) => c@ == strip_html_spec(s@),
            (None, None) => true,
            _ => false,
        },
{
    match o {
        Some(s) => {
            let chars = str_to_chars(s.as_str());
            let stripped = strip_html(&chars);
            Some(chars_to_string(&stripped))
        },
        None => None,
    }
}

/// Maps one upstream anime record onto a schedule item: Japanese title
/// preferred as primary, the default title folded into the English list
/// when distinct, markup stripped from the synopsis.
pub fn convert_to_item(anime: JikanAnimeRecord) -> (r: Item)
    ensures
        item_matches_record(r, anime),
{
    let ghost a = anime;
    let JikanAnimeRecord {
        mal_id,
        url,
        images: _,
        title,
        title_english,
        title_japanese,
        type_field,
        episodes: _,
        status: _,
        aired_from,
        aired_to,
        score_hundredths: _,
        synopsis,
        broadcast,
        studios: _,
        genres: _,
    } = anime;

    let type_item = match &type_field {
        Some(s) => {
            if chars_eq_str_local(s, "TV") {
                ItemType::Tv
            } else if chars_eq_str_local(s, "Movie") {
                ItemType::Movie
            } else if chars_eq_str_local(s, "OVA") {
                ItemType::Ova
            } else if chars_eq_str_local(s, "ONA") {
                ItemType::Web
            } else {
                ItemType::Tv
            }
        },
        None => ItemType::Tv,
    };

    let site = Site {
        site: "mal".to_owned(),
        id: Some(i64_to_string(mal_id as i64)),
        begin: None,
        broadcast: None,
        comment: None,
        url: Some(url.clone()),
    };
    let mut sites: Vec<Site> = Vec::new();
    sites.push(site);

    let ja_nonempty: Option<String> = match &title_japanese {
        Some(j) => if j.as_str().unicode_len() > 0 {
            Some(j.clone())
        } else {
            None
        },
        None => None,
    };

    let mut en: Vec<String> = Vec::new();
    match &title_english {
        Some(e) => {
            en.push(e.clone());
        },
        None => {},
    }
    let (primary, ja_list): (String, Vec<String>) = match ja_nonempty {
        Some(j) => {
            if !(title == j) {
                en.push(title.clone());
            }
            let mut ja: Vec<String> = Vec::new();
            ja.push(j.clone());
            (j, ja)
        },
        None => (title, Vec::new()),
    };
    proof {
        assert(en.deep_view() =~= jikan_en_titles(a));
        assert(ja_list.deep_view() =~= jikan_ja_titles(a));
    }

    let comment = strip_html_opt(&synopsis);

    Item {
        title: primary,
        title_translate: TitleTranslate {
            zh_hans: Vec::new(),
            en,
            zh_hant: Vec::new(),
            ja: ja_list,
        },
        type_field: type_item,
        lang: "ja".to_owned(),
        official_site: url,
        begin: unwrap_or_empty(aired_from),
        broadcast,
        end: unwrap_or_empty(aired_to),
        comment,
        sites,
    }
}

/// Whether a `String` equals a `&str`, by characters.
fn chars_eq_str_local(a: &String, s: &str) -> (r: bool)
    ensures
        r == (a@ == s@),
{
    let av = str_to_chars(a.as_str());
    chars_eq_str(&av, s)
}

/// The canonical score for this provider: the source's 0-10 score, times
/// ten, rounded half-up to an integer (8.55 becomes 86). The hundredths
/// scale makes the rounding exact.
pub open spec fn jikan_score(h: Option<u16>) -> Option<i32> {
    match h {
        Some(v) => Some(((v + 5) as int / 10) as i32),
        None => None,
    }
}

/// What the unified record mapped from record `a` looks like.
pub open spec fn metadata_matches_record(r: UnifiedMetadata, a: JikanAnimeRecord) -> bool {
    &&& r.id@ == dec_of_int(a.mal_id as int)
    &&& r.title.romaji.deep_view() == Some(a.title@)
    &&& r.title.english.deep_view() == a.title_english.deep_view()
    &&& r.title.native.deep_view() == a.title_japanese.deep_view()
    &&& r.cover_image.large.deep_view() == (match picked_image(a.images@) {
        Some(e) => e.large_image_url.deep_view(),
        None => None,
    })
    &&& r.cover_image.extra_large.deep_view() == (match picked_image(a.images@) {
        Some(e) => e.image_url.deep_view(),
        None => None,
    })
    &&& r.average_score == jikan_score(a.score_hundredths)
    &&& r.episodes == a.episodes
    &&& r.genres.deep_view() == a.genres.deep_view()
    &&& (match (r.description, a.synopsis) {
        (Some(c), Some(s)) => c@ == strip_html_spec(s@),
        (None, None) => true,
        _ => false,
    })
    &&& r.studios.deep_view() == a.studios.deep_view()
    &&& r.characters@.len() == 0
    &&& r.staff@.len() == 0
    &&& r.episodes_list@.len() == 0
    &&& r.is_finished == (a.status@ == "Finished Airing"@)
    &&& r.total_seasons is None
    &&& r.current_season is None
    &&& r.runtime is None
    &&& r.content_rating is None
}

/// The image entry with the given key, if any.
fn image_for(images: &Vec<JikanImageEntry>, key: &str) -> (r: Option<JikanImageEntry>)
    ensures
        match (r, first_image_for(images@, key@)) {
            (Some(a), Some(b)) => a.image_url.deep_view() == b.image_url.deep_view()
                && a.large_image_url.deep_view() == b.large_image_url.deep_view(),
            (None, None) => true,
            _ => false,
        },
{
    let n = images.len();
    let mut i: usize = 0;
    proof {
        assert(images@.skip(0) =~= images@);
    }
    while i < n
        invariant
            i <= n,
            n == images@.len(),
            first_image_for(images@, key@) == first_image_for(images@.skip(i as int), key@),
        decreases n - i,
    {
        let ghost rest = images@.skip(i as int);
        proof {
            assert(rest[0] == images@[i as int]);
            assert(rest.skip(1) =~= images@.skip(i + 1));
        }
        if chars_eq_str_local(&images[i].key, key) {
            return Some(
                JikanImageEntry {
                    key: images[i].key.clone(),
                    image_url: clone_opt_string(&images[i].image_url),
                    large_image_url: clone_opt_string(&images[i].large_image_url),
                },
            );
        }
        i += 1;
    }
    proof {
        assert(images@.skip(n as int) =~= Seq::<JikanImageEntry>::empty());
    }
    None
}

/// Maps one upstream anime record onto the unified schema: `jpg` image
/// preferred over `webp`, markup stripped from the synopsis, the 0-10
/// score normalized to 0-100, finished exactly when the status string is
/// "Finished Airing".
pub fn convert_to_metadata(anime: JikanAnimeRecord) -> (r: UnifiedMetadata)
    ensures
        metadata_matches_record(r, anime),
{
    let ghost a = anime;
    let image = {
        let jpg = image_for(&anime.images, "jpg");
        match jpg {
            Some(e) => Some(e),
            None => image_for(&anime.images, "webp"),
        }
    };
    let (large, extra_large) = match image {
        Some(e) => (e.large_image_url, e.image_url),
        None => (None, None),
    };

    let description = strip_html_opt(&anime.synopsis);
    let is_finished = chars_eq_str_local(&anime.status, "Finished Airing");
    let average_score: Option<i32> = match anime.score_hundredths {
        Some(h) => Some(((h as u32 + 5) / 10) as i32),
        None => None,
    };

    UnifiedMetadata {
        id: i64_to_string(anime.mal_id as i64),
        title: UniversalTitle {
            romaji: Some(anime.title),
            english: anime.title_english,
            native: anime.title_japanese,
        },
        cover_image: UniversalCoverImage { large, extra_large },
        average_score,
        episodes: anime.episodes,
        genres: anime.genres,
        description,
        studios: anime.studios,
        characters: Vec::new(),
        staff: Vec::new(),
        episodes_list: Vec::new(),
        is_finished,
        total_seasons: None,
        current_season: None,
        runtime: None,
        content_rating: None,
    }
}

/// The records that survive deduplication by id, first occurrence winning,
/// given the ids already seen.
pub open spec fn dedup_records(list: Seq<JikanAnimeRecord>, seen: Seq<i32>) -> Seq<
    JikanAnimeRecord,
>
    decreases list.len(),
{
    if list.len() == 0 {
        Seq::empty()
    } else if seen.contains(list[0].mal_id) {
        dedup_records(list.skip(1), seen)
    } else {
        seq![list[0]] + dedup_records(list.skip(1), seen.push(list[0].mal_id))
    }
}

fn vec_contains_i32(v: &Vec<i32>, x: i32) -> (r: bool)
    ensures
        r == v@.contains(x),
{
    let n = v.len();
    let mut i: usize = 0;
    while i < n
        invariant
            i <= n,
            n == v@.len(),
            forall|j: int| 0 <= j < i ==> v@[j] != x,
        decreases n - i,
    {
        if v[i] == x {
            return true;
        }
        i += 1;
    }
    proof {
        if v@.contains(x) {
            let k = choose|k: int| 0 <= k < v@.len() && v@[k] == x;
            assert(v@[k] != x);
        }
    }
    false
}

/// Maps a season listing onto schedule items: an absent listing (an
/// upstream 404) yields no items, and duplicate ids are dropped, first
/// occurrence winning.
pub fn fetch_season(listing: Option<Vec<JikanAnimeRecord>>) -> (r: Vec<Item>)
    ensures
        match listing {
            None => r@.len() == 0,
            Some(list) => {
                let kept = dedup_records(list@, Seq::empty());
                &&& r@.len() == kept.len()
                &&& forall|i: int| 0 <= i < r@.len() ==> item_matches_record(
                    #[trigger] r@[i],
                    kept[i],
                )
            },
        },
{
    let mut list = match listing {
        Some(l) => l,
        None => {
            return Vec::new();
        },
    };
    let ghost orig = list@;
    let ghost kept = dedup_records(orig, Seq::empty());
    let mut seen: Vec<i32> = Vec::new();
    let mut items: Vec<Item> = Vec::new();
    let ghost mut taken: Seq<JikanAnimeRecord> = Seq::empty();
    proof {
        assert(taken + dedup_records(list@, seen@) =~= dedup_records(list@, seen@));
    }
    while list.len() > 0
        invariant
            kept == taken + dedup_records(list@, seen@),
            items@.len() == taken.len(),
            forall|i: int| 0 <= i < items@.len() ==> item_matches_record(
                #[trigger] items@[i],
                taken[i],
            ),
        decreases list.len(),
    {
        let ghost old_list = list@;
        let ghost old_seen = seen@;
        let ghost old_taken = taken;
        let a = list.remove(0);
        proof {
            assert(old_list.remove(0) =~= old_list.skip(1));
            assert(a == old_list[0]);
        }
        let dup = vec_contains_i32(&seen, a.mal_id);
        if !dup {
            seen.push(a.mal_id);
            proof {
                assert(dedup_records(old_list, old_seen) == seq![old_list[0]] + dedup_records(
                    old_list.skip(1),
                    old_seen.push(old_list[0].mal_id),
                ));
                taken = old_taken.push(a);
                assert(old_taken + (seq![a] + dedup_records(list@, seen@)) =~= old_taken.push(a)
                    + dedup_records(list@, seen@));
            }
            let it = convert_to_item(a);
            items.push(it);
        } else {
            proof {
                assert(dedup_records(old_list, old_seen) == dedup_records(
                    old_list.skip(1),
                    old_seen,
                ));
            }
        }
    }
    proof {
        assert(dedup_records(list@, seen@) =~= Seq::<JikanAnimeRecord>::empty());
        assert(kept =~= taken);
    }
    items
}

} // verus!
