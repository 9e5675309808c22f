//! The canonical data model: the unified per-title metadata record, the
//! schedule `Item`, and the per-platform site registry entries that every
//! provider response is mapped onto.

use vstd::prelude::*;

verus! {

/// Registry entry kind for a tracked platform.
#[derive(Debug, Clone, Copy, PartialEq, Eq, Structural)]
pub enum SiteType {
    Info,
    Onair,
    Resource,
}

/// Registry entry for one tracked platform.
#[derive(Default, Debug, Clone, PartialEq)]
pub struct SiteMetadata {
    pub title: String,
    pub url_template: String,
    pub regions: Option<Vec<String>>,
    pub type_field: Option<SiteType>,
}

/// Kind of a schedule entry.
#[derive(Default, Debug, Clone, Copy, PartialEq, Eq, Structural)]
pub enum ItemType {
    #[default]
    Tv,
    Web,
    Movie,
    Ova,
}

#[derive(Default, Debug, Clone, PartialEq)]
pub struct Bangumi {
    pub title: String,
    pub url_template: String,
    pub type_field: String,
}

#[derive(Default, Debug, Clone, PartialEq)]
pub struct Tmdb {
    pub title: String,
    pub url_template: String,
    pub type_field: String,
}

#[derive(Default, Debug, Clone, PartialEq)]
pub struct Anidb {
    pub title: String,
    pub url_template: String,
    pub type_field: String,
}

#[derive(Default, Debug, Clone, PartialEq)]
pub struct AniList {
    pub title: String,
    pub url_template: String,
    pub type_field: String,
}

#[derive(Default, Debug, Clone, PartialEq)]
pub struct Mal {
    pub title: String,
    pub url_template: String,
    pub type_field: String,
}

#[derive(Default, Debug, Clone, PartialEq)]
pub struct Acfun {
    pub title: String,
    pub url_template: String,
    pub regions: Vec<String>,
    pub type_field: String,
}

#[derive(Default, Debug, Clone, PartialEq)]
pub struct Bilibili {
    pub title: String,
    pub url_template: String,
    pub regions: Vec<String>,
    pub type_field: String,
}

#[derive(Default, Debug, Clone, PartialEq)]
pub struct BilibiliHkMoTw {
    pub title: String,
    pub url_template: String,
    pub regions: Vec<String>,
    pub type_field: String,
}

#[derive(Default, Debug, Clone, PartialEq)]
pub struct BilibiliHkMo {
    pub title: String,
    pub url_template: String,
    pub regions: Vec<String>,
    pub type_field: String,
}

#[derive(Default, Debug, Clone, PartialEq)]
pub struct BilibiliTw {
    pub title: String,
    pub url_template: String,
    pub regions: Vec<String>,
    pub type_field: String,
}

#[derive(Default, Debug, Clone, PartialEq)]
pub struct Youku {
    pub title: String,
    pub url_template: String,
    pub regions: Vec<String>,
    pub type_field: String,
}

#[derive(Default, Debug, Clone, PartialEq)]
pub struct Qq {
    pub title: String,
    pub url_template: String,
    pub regions: Vec<String>,
    pub type_field: String,
}

#[derive(Default, Debug, Clone, PartialEq)]
pub struct Iqiyi {
    pub title: String,
    pub url_template: String,
    pub regions: Vec<String>,
    pub type_field: String,
}

#[derive(Default, Debug, Clone, PartialEq)]
pub struct Letv {
    pub title: String,
    pub url_template: String,
    pub regions: Vec<String>,
    pub type_field: String,
}

#[derive(Default, Debug, Clone, PartialEq)]
pub struct Mgtv {
    pub title: String,
    pub url_template: String,
    pub regions: Vec<String>,
    pub type_field: String,
}

#[derive(Default, Debug, Clone, PartialEq)]
pub struct Nicovideo {
    pub title: String,
    pub url_template: String,
    pub regions: Vec<String>,
    pub type_field: String,
}

#[derive(Default, Debug, Clone, PartialEq)]
pub struct Netflix {
    pub title: String,
    pub url_template: String,
    pub type_field: String,
}

#[derive(Default, Debug, Clone, PartialEq)]
pub struct Gamer {
    pub title: String,
    pub url_template: String,
    pub regions: Vec<String>,
    pub type_field: String,
}

#[derive(Default, Debug, Clone, PartialEq)]
pub struct GamerHk {
    pub title: String,
    pub url_template: String,
    pub regions: Vec<String>,
    pub type_field: String,
}

#[derive(Default, Debug, Clone, PartialEq)]
pub struct MuseHk {
    pub title: String,
    pub url_template: String,
    pub regions: Vec<String>,
    pub type_field: String,
}

#[derive(Default, Debug, Clone, PartialEq)]
pub struct MuseTw {
    pub title: String,
    pub url_template: String,
    pub regions: Vec<String>,
    pub type_field: String,
}

#[derive(Default, Debug, Clone, PartialEq)]
pub struct AniOne {
    pub title: String,
    pub url_template: String,
    pub regions: Vec<String>,
    pub type_field: String,
}

#[derive(Default, Debug, Clone, PartialEq)]
pub struct AniOneAsia {
    pub title: String,
    pub url_template: String,
    pub regions: Vec<String>,
    pub type_field: String,
}

#[derive(Default, Debug, Clone, PartialEq)]
pub struct Viu {
    pub title: String,
    pub url_template: String,
    pub regions: Vec<String>,
    pub type_field: String,
}

#[derive(Default, Debug, Clone, PartialEq)]
pub struct Mytv {
    pub title: String,
    pub url_template: String,
    pub regions: Vec<String>,
    pub type_field: String,
}

#[derive(Default, Debug, Clone, PartialEq)]
pub struct Disneyplus {
    pub title: String,
    pub url_template: String,
    pub type_field: String,
}

#[derive(Default, Debug, Clone, PartialEq)]
pub struct Abema {
    pub title: String,
    pub url_template: String,
    pub regions: Vec<String>,
    pub type_field: String,
}

#[derive(Default, Debug, Clone, PartialEq)]
pub struct Unext {
    pub title: String,
    pub url_template: String,
    pub regions: Vec<String>,
    pub type_field: String,
}

#[derive(Default, Debug, Clone, PartialEq)]
pub struct Crunchyroll {
    pub title: String,
    pub url_template: String,
    pub type_field: String,
}

#[derive(Default, Debug, Clone, PartialEq)]
pub struct Danime {
    pub title: String,
    pub url_template: String,
    pub regions: Vec<String>,
    pub type_field: String,
}

#[derive(Default, Debug, Clone, PartialEq)]
pub struct Tropics {
    pub title: String,
    pub url_template: String,
    pub regions: Vec<String>,
    pub type_field: String,
}

#[derive(Default, Debug, Clone, PartialEq)]
pub struct Prime {
    pub title: String,
    pub url_template: String,
    pub type_field: String,
}

#[derive(Default, Debug, Clone, PartialEq)]
pub struct Youtube {
    pub title: String,
    pub url_template: String,
    pub type_field: String,
}

#[derive(Default, Debug, Clone, PartialEq)]
pub struct Dmhy {
    pub title: String,
    pub url_template: String,
    pub type_field: String,
}

#[derive(Default, Debug, Clone, PartialEq)]
pub struct Mikan {
    pub title: String,
    pub url_template: String,
    pub type_field: String,
}

#[derive(Default, Debug, Clone, PartialEq)]
pub struct BangumiMoe {
    pub title: String,
    pub url_template: String,
    pub type_field: String,
}
#[derive(Default, Debug, Clone, PartialEq)]
pub struct Root {
    pub site_meta: SiteMeta,
    pub items: Vec<Item>,
}

#[derive(Default, Debug, Clone, PartialEq)]
pub struct SiteMeta {
    pub bangumi: Bangumi,
    pub tmdb: Tmdb,
    pub anidb: Anidb,
    pub ani_list: AniList,
    pub mal: Mal,
    pub acfun: Acfun,
    pub bilibili: Bilibili,
    pub bilibili_hk_mo_tw: BilibiliHkMoTw,
    pub bilibili_hk_mo: BilibiliHkMo,
    pub bilibili_tw: BilibiliTw,
    pub youku: Youku,
    pub qq: Qq,
    pub iqiyi: Iqiyi,
    pub letv: Letv,
    pub mgtv: Mgtv,
    pub nicovideo: Nicovideo,
    pub netflix: Netflix,
    pub gamer: Gamer,
    pub gamer_hk: GamerHk,
    pub muse_hk: MuseHk,
    pub muse_tw: MuseTw,
    pub ani_one: AniOne,
    pub ani_one_asia: AniOneAsia,
    pub viu: Viu,
    pub mytv: Mytv,
    pub disneyplus: Disneyplus,
    pub abema: Abema,
    pub unext: Unext,
    pub crunchyroll: Crunchyroll,
    pub danime: Danime,
    pub tropics: Tropics,
    pub prime: Prime,
    pub youtube: Youtube,
    pub dmhy: Dmhy,
    pub mikan: Mikan,
    pub bangumi_moe: BangumiMoe,
}

/// A schedule entry. `begin` and `end` are ISO-8601 date-time strings where
/// the empty string is the "unknown" sentinel.
#[derive(Default, Debug, Clone, PartialEq)]
pub struct Item {
    pub title: String,
    pub title_translate: TitleTranslate,
    pub type_field: ItemType,
    pub lang: String,
    pub official_site: String,
    pub begin: String,
    pub broadcast: Option<String>,
    pub end: String,
    pub comment: Option<String>,
    pub sites: Vec<Site>,
}

/// Alternate titles grouped by language code; an empty list means no
/// translation for that language.
#[derive(Default, Debug, Clone, PartialEq)]
pub struct TitleTranslate {
    pub zh_hans: Vec<String>,
    pub en: Vec<String>,
    pub zh_hant: Vec<String>,
    pub ja: Vec<String>,
}

/// Per-platform identifier attached to a schedule entry, with optional
/// per-site overrides.
#[derive(Default, Debug, Clone, PartialEq)]
pub struct Site {
    pub site: String,
    pub id: Option<String>,
    pub begin: Option<String>,
    pub broadcast: Option<String>,
    pub comment: Option<String>,
    pub url: Option<String>,
}

/// The canonical per-title record every provider maps onto. `id` encodes
/// provenance and, for TV, show and season. `average_score` is normalized
/// to a 0-100 scale regardless of the source unit. The caps on `characters`
/// (6) and `staff` (10) are applied in upstream order, never re-sorted.
#[derive(Default, Debug, Clone, PartialEq)]
pub struct UnifiedMetadata {
    pub id: String,
    pub title: UniversalTitle,
    pub cover_image: UniversalCoverImage,
    pub average_score: Option<i32>,
    pub episodes: Option<i32>,
    pub genres: Vec<String>,
    pub description: Option<String>,
    pub studios: Vec<String>,
    pub characters: Vec<UniversalCharacter>,
    pub staff: Vec<UniversalStaff>,
    pub episodes_list: Vec<UniversalEpisode>,
    pub is_finished: bool,
    pub total_seasons: Option<i32>,
    pub current_season: Option<i32>,
    pub runtime: Option<i32>,
    pub content_rating: Option<String>,
}

#[derive(Default, Debug, Clone, PartialEq)]
pub struct UniversalTitle {
    pub romaji: Option<String>,
    pub english: Option<String>,
    pub native: Option<String>,
}

#[derive(Default, Debug, Clone, PartialEq)]
pub struct UniversalCoverImage {
    pub large: Option<String>,
    pub extra_large: Option<String>,
}

#[derive(Default, Debug, Clone, PartialEq)]
pub struct UniversalCharacter {
    pub name: String,
    pub voice_actor: Option<String>,
    pub role: Option<String>,
}

#[derive(Default, Debug, Clone, PartialEq)]
pub struct UniversalEpisode {
    pub number: i32,
    pub title: Option<String>,
    pub air_date: Option<String>,
    pub overview: Option<String>,
    pub runtime: Option<i32>,
}

#[derive(Default, Debug, Clone, PartialEq)]
pub struct UniversalStaff {
    pub name: String,
    pub role: String,
    pub department: Option<String>,
}

} // verus!
