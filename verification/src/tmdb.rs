//! The TMDB resolver logic: composite-identifier parsing, title
//! normalization for search, search-result selection, content-rating
//! precedence, and the mapping of movie and show+season records onto the
//! unified schema.

use vstd::prelude::*;
use crate::MetaError;
use vstd::string::*;
use crate::model::{UnifiedMetadata, UniversalCharacter, UniversalCoverImage, UniversalStaff, UniversalTitle, UniversalEpisode};
use crate::text::{
    all_digits, chars_eq_str, chars_to_string, clone_opt_string, dec_of_int, dec_val,
    first_eq_part, i64_to_string, lemma_first_eq_part, opt_str_or_empty,
    parse_dec_i32, split_at_char, split_on, str_to_chars, unwrap_or_empty,
};

verus! {

/// The addressing mode a composite identifier resolves to.
#[derive(Debug, Clone, PartialEq)]
pub enum MediaType {
    Movie,
    Tv { show_id: String, season: i32 },
}

/// Leading `/` characters removed.
pub open spec fn strip_leading_slashes(s: Seq<char>) -> Seq<char>
    decreases s.len(),
{
    if s.len() > 0 && s[0] == '/' {
        strip_leading_slashes(s.skip(1))
    } else {
        s
    }
}

/// The segments of a composite identifier: leading slashes dropped, the id
/// split at `/`, and everything from an `episode` segment on discarded.
pub open spec fn id_parts(s: Seq<char>) -> Seq<Seq<char>> {
    let parts = split_on(strip_leading_slashes(s), '/');
    let k = first_eq_part(parts, "episode"@);
    if k < 0 {
        parts
    } else {
        parts.take(k)
    }
}

/// What a composite identifier denotes.
pub enum ParsedId {
    Invalid,
    MovieId(Seq<char>),
    TvId { show: Seq<char>, season: int },
}

/// The composite-identifier grammar: optional leading `/`; anything from an
/// `episode` segment on discarded; then `tv/{show}[/season/{n}]` (season
/// defaults to 1), `movie/{id}`, or a bare single segment read as a movie
/// id. A season segment that is not a decimal number in range is invalid.
pub open spec fn parse_id_spec(s: Seq<char>) -> ParsedId {
    let parts = id_parts(s);
    if parts.len() == 0 || (parts.len() == 1 && parts[0].len() == 0) {
        ParsedId::Invalid
    } else if parts[0] == "tv"@ {
        if parts.len() < 2 {
            ParsedId::Invalid
        } else if parts.len() >= 4 && parts[2] == "season"@ {
            if parts[3].len() > 0 && all_digits(parts[3]) && dec_val(parts[3]) <= i32::MAX {
                ParsedId::TvId { show: parts[1], season: dec_val(parts[3]) }
            } else {
                ParsedId::Invalid
            }
        } else {
            ParsedId::TvId { show: parts[1], season: 1 }
        }
    } else if parts[0] == "movie"@ {
        if parts.len() < 2 {
            ParsedId::Invalid
        } else {
            ParsedId::MovieId(parts[1])
        }
    } else if parts.len() == 1 {
        ParsedId::MovieId(parts[0])
    } else {
        ParsedId::Invalid
    }
}

/// Parses a composite identifier into the id string handed to the upstream
/// call and the addressing mode.
pub fn parse_tmdb_id(id: &str) -> (r: Result<(String, MediaType), MetaError>)
    ensures
        match parse_id_spec(id@) {
            ParsedId::Invalid => r == Err::<(String, MediaType), MetaError>(
                MetaError::InvalidInput,
            ),
            ParsedId::MovieId(m) => r matches Ok(p) && p.0@ == m && p.1 == MediaType::Movie,
            ParsedId::TvId { show, season } => r matches Ok(p) && p.0@ == show && (p.1 matches
                MediaType::Tv { show_id, season: sn } && show_id@ == show && sn == season),
        },
{
    let chars = str_to_chars(id);
    let n = chars.len();
    // Drop leading slashes.
    let mut start: usize = 0;
    proof {
        assert(chars@.skip(0) =~= chars@);
    }
    while start < n && chars[start] == '/'
        invariant
            start <= n,
            n == chars@.len(),
            strip_leading_slashes(chars@) == strip_leading_slashes(chars@.skip(start as int)),
        decreases n - start,
    {
        proof {
            assert(chars@.skip(start as int).skip(1) =~= chars@.skip(start + 1));
        }
        start += 1;
    }
    proof {
        if start < n {
            assert(chars@.skip(start as int)[0] == chars@[start as int]);
            assert(strip_leading_slashes(chars@.skip(start as int)) == chars@.skip(start as int));
        } else {
            assert(chars@.skip(start as int) =~= Seq::<char>::empty());
        }
    }
    let mut parts = split_at_char(&chars, start, '/');
    let ghost all_parts = parts.deep_view();

    // Discard everything from an `episode` segment on.
    let mut cut: Option<usize> = None;
    let m = parts.len();
    let mut i: usize = 0;
    while i < m && cut.is_none()
        invariant
            i <= m,
            m == parts@.len(),
            parts.deep_view() == all_parts,
            match cut {
                Some(k) => k < m && all_parts[k as int] == "episode"@ && forall|j: int|
                    0 <= j < k ==> all_parts[j] != "episode"@,
                None => forall|j: int| 0 <= j < i ==> all_parts[j] != "episode"@,
            },
        decreases m - i, (if cut.is_none() { 1int } else { 0int }),
    {
        proof {
            assert(parts[i as int].deep_view() =~= parts[i as int]@);
        }
        if chars_eq_str(&parts[i], "episode") {
            cut = Some(i);
        } else {
            i += 1;
        }
    }
    proof {
        lemma_first_eq_part(all_parts, "episode"@);
        let fe = first_eq_part(all_parts, "episode"@);
        match cut {
            Some(k) => {
                assert(fe == k) by {
                    if fe < k {
                        assert(all_parts[fe] != "episode"@);
                    }
                    if fe > k {
                        assert(all_parts[k as int] != "episode"@);
                    }
                }
            },
            None => {
                assert(fe == -1) by {
                    if fe >= 0 {
                        assert(all_parts[fe] == "episode"@);
                    }
                }
            },
        }
    }
    if let Some(k) = cut {
        parts.truncate(k);
        proof {
            assert(parts.deep_view() =~~= all_parts.take(k as int));
        }
    }
    assert(parts.deep_view() == id_parts(id@));
    let ghost ps = id_parts(id@);

    // Interpret the segments.
    let len = parts.len();
    proof {
        if len >= 1 {
            assert(parts@[0].deep_view() =~= parts@[0]@);
        }
        if len >= 2 {
            assert(parts@[1].deep_view() =~= parts@[1]@);
        }
        if len >= 3 {
            assert(parts@[2].deep_view() =~= parts@[2]@);
        }
        if len >= 4 {
            assert(parts@[3].deep_view() =~= parts@[3]@);
        }
    }
    if len == 0 || (len == 1 && parts[0].len() == 0) {
        return Err(MetaError::InvalidInput);
    }
    if chars_eq_str(&parts[0], "tv") {
        if len < 2 {
            return Err(MetaError::InvalidInput);
        }
        let mut season: i32 = 1;
        if len >= 4 && chars_eq_str(&parts[2], "season") {
            match parse_dec_i32(&parts[3]) {
                Some(sn) => {
                    season = sn;
                },
                None => {
                    return Err(MetaError::InvalidInput);
                },
            }
        }
        let show_id = chars_to_string(&parts[1]);
        let show_id2 = chars_to_string(&parts[1]);
        Ok((show_id, MediaType::Tv { show_id: show_id2, season }))
    } else if chars_eq_str(&parts[0], "movie") {
        if len < 2 {
            return Err(MetaError::InvalidInput);
        }
        let movie_id = chars_to_string(&parts[1]);
        Ok((movie_id, MediaType::Movie))
    } else if len == 1 {
        let movie_id = chars_to_string(&parts[0]);
        Ok((movie_id, MediaType::Movie))
    } else {
        Err(MetaError::InvalidInput)
    }
}

/// One cast credit as the upstream catalog reports it.
#[derive(Default, Debug, Clone, PartialEq)]
pub struct CastRecord {
    pub name: Option<String>,
    pub character: Option<String>,
}

/// One crew credit as the upstream catalog reports it.
#[derive(Default, Debug, Clone, PartialEq)]
pub struct CrewRecord {
    pub name: Option<String>,
    pub job: Option<String>,
    pub department: Option<String>,
}

#[derive(Default, Debug, Clone, PartialEq)]
pub struct CreditsRecord {
    pub cast: Option<Vec<CastRecord>>,
    pub crew: Option<Vec<CrewRecord>>,
}

/// A per-country certification, already reduced to the one rating string
/// that country exposes (or none).
#[derive(Default, Debug, Clone, PartialEq)]
pub struct RatingEntry {
    pub country: Option<String>,
    pub rating: Option<String>,
}

/// One episode of a season listing. `vote`-style numeric fields the mapping
/// never reads are not modeled.
#[derive(Default, Debug, Clone, PartialEq)]
pub struct EpisodeRecord {
    pub episode_number: Option<i32>,
    pub name: Option<String>,
    pub air_date: Option<String>,
    pub overview: Option<String>,
    pub runtime: Option<i32>,
}

/// A movie detail record. `vote_average_hundredths` holds the source's
/// 0-10 vote average scaled by one hundred (8.5 becomes 850).
#[derive(Default, Debug, Clone, PartialEq)]
pub struct MovieRecord {
    pub id: Option<i32>,
    pub title: Option<String>,
    pub poster_path: Option<String>,
    pub genres: Option<Vec<Option<String>>>,
    pub overview: Option<String>,
    pub release_dates: Option<Vec<RatingEntry>>,
    pub credits: Option<CreditsRecord>,
    pub production_companies: Option<Vec<Option<String>>>,
    pub vote_average_hundredths: Option<u16>,
    pub status: Option<String>,
    pub runtime: Option<i32>,
    pub adult: Option<bool>,
}

/// A TV show (parent) detail record; scores are scaled as in `MovieRecord`.
#[derive(Default, Debug, Clone, PartialEq)]
pub struct TvShowRecord {
    pub id: Option<i32>,
    pub name: Option<String>,
    pub poster_path: Option<String>,
    pub genres: Option<Vec<Option<String>>>,
    pub production_companies: Option<Vec<Option<String>>>,
    pub credits: Option<CreditsRecord>,
    pub content_ratings: Option<Vec<RatingEntry>>,
    pub status: Option<String>,
    pub episode_run_time: Option<Vec<i32>>,
    pub overview: Option<String>,
    pub number_of_seasons: Option<i32>,
    pub vote_average_hundredths: Option<u16>,
    pub adult: Option<bool>,
}

/// A TV season detail record. Season payloads rarely carry genres or a
/// score of their own; when they are absent or the placeholder zero, the
/// parent show's values fill the gap.
#[derive(Default, Debug, Clone, PartialEq)]
pub struct TvSeasonRecord {
    pub name: Option<String>,
    pub poster_path: Option<String>,
    pub overview: Option<String>,
    pub episodes: Option<Vec<EpisodeRecord>>,
    pub season_number: Option<i32>,
    pub credits: Option<CreditsRecord>,
    pub genres: Vec<Option<String>>,
    pub vote_average_hundredths: Option<u16>,
}

/// The genre or company names that are actually present, in order.
pub open spec fn kept_names(xs: Seq<Option<String>>) -> Seq<Seq<char>>
    decreases xs.len(),
{
    if xs.len() == 0 {
        Seq::empty()
    } else {
        let rest = kept_names(xs.skip(1));
        match xs[0] {
            Some(s) => seq![s@] + rest,
            None => rest,
        }
    }
}

/// Keeps the names that are present, dropping absent ones.
pub fn collect_names(xs: &Vec<Option<String>>) -> (r: Vec<String>)
    ensures
        r.deep_view() == kept_names(xs@),
{
    let n = xs.len();
    let mut r: Vec<String> = Vec::new();
    let mut i: usize = 0;
    proof {
        assert(xs@.skip(0) =~= xs@);
        assert(r.deep_view() + kept_names(xs@) =~= kept_names(xs@));
    }
    while i < n
        invariant
            i <= n,
            n == xs@.len(),
            kept_names(xs@) == r.deep_view() + kept_names(xs@.skip(i as int)),
        decreases n - i,
    {
        let ghost rest = xs@.skip(i as int);
        let ghost before = r.deep_view();
        proof {
            assert(rest[0] == xs@[i as int]);
            assert(rest.skip(1) =~= xs@.skip(i + 1));
        }
        match &xs[i] {
            Some(s) => {
                r.push(s.clone());
                proof {
                    assert(r.deep_view() =~~= before.push(xs@[i as int]->Some_0@));
                    assert(before + (seq![xs@[i as int]->Some_0@] + kept_names(xs@.skip(i + 1)))
                        =~= before.push(xs@[i as int]->Some_0@) + kept_names(xs@.skip(i + 1)));
                }
            },
            None => {},
        }
        i += 1;
    }
    proof {
        assert(xs@.skip(n as int) =~= Seq::<Option<String>>::empty());
        assert(r.deep_view() + kept_names(xs@.skip(n as int)) =~= r.deep_view());
    }
    r
}

/// The first non-empty string of a list, in order; absent and empty
/// entries are passed over.
pub open spec fn first_nonempty_spec(xs: Seq<Option<String>>) -> Option<Seq<char>>
    decreases xs.len(),
{
    if xs.len() == 0 {
        None
    } else {
        match xs[0] {
            Some(s) => if s@.len() > 0 {
                Some(s@)
            } else {
                first_nonempty_spec(xs.skip(1))
            },
            None => first_nonempty_spec(xs.skip(1)),
        }
    }
}

/// Reduces a list of optional strings to its first non-empty one. This is
/// how a country's certification list becomes the one rating string the
/// precedence rule reads.
pub fn first_nonempty(xs: Vec<Option<String>>) -> (r: Option<String>)
    ensures
        r.deep_view() == first_nonempty_spec(xs@),
{
    let ghost orig = xs@;
    let mut xs = xs;
    #[verifier::loop_isolation(false)]
    while xs.len() > 0
        invariant
            first_nonempty_spec(orig) == first_nonempty_spec(xs@),
        decreases xs.len(),
    {
        let ghost before = xs@;
        let x = xs.remove(0);
        proof {
            assert(x == before[0]);
            assert(before.remove(0) =~= before.skip(1));
        }
        match x {
            Some(s) => {
                if s.as_str().unicode_len() > 0 {
                    return Some(s);
                }
            },
            None => {},
        }
    }
    None
}

pub open spec fn entry_has_country(e: RatingEntry, c: Seq<char>) -> bool {
    e.country matches Some(s) && s@ == c
}

/// The rating of the first entry for country `c`: `None` when no entry has
/// that country, `Some(rating)` for the first one that does (its rating may
/// itself be absent).
pub open spec fn first_rating_for(rs: Seq<RatingEntry>, c: Seq<char>) -> Option<Option<Seq<char>>>
    decreases rs.len(),
{
    if rs.len() == 0 {
        None
    } else if entry_has_country(rs[0], c) {
        Some(rs[0].rating.deep_view())
    } else {
        first_rating_for(rs.skip(1), c)
    }
}

/// The first present rating in list order, country ignored.
pub open spec fn first_any_rating(rs: Seq<RatingEntry>) -> Option<Seq<char>>
    decreases rs.len(),
{
    if rs.len() == 0 {
        None
    } else if rs[0].rating is Some {
        rs[0].rating.deep_view()
    } else {
        first_any_rating(rs.skip(1))
    }
}

/// Content-rating precedence: the first JP entry's rating if present, else
/// the first US entry's, else the first present rating of any country.
pub open spec fn best_rating_spec(rs: Seq<RatingEntry>) -> Option<Seq<char>> {
    match first_rating_for(rs, "JP"@) {
        Some(Some(r)) => Some(r),
        _ => match first_rating_for(rs, "US"@) {
            Some(Some(r)) => Some(r),
            _ => first_any_rating(rs),
        },
    }
}

/// The rating of the first entry whose country equals `c`.
fn rating_for_country(results: &Vec<RatingEntry>, c: &str) -> (r: Option<Option<String>>)
    ensures
        r.deep_view() == first_rating_for(results@, c@),
{
    let n = results.len();
    let mut i: usize = 0;
    proof {
        assert(results@.skip(0) =~= results@);
    }
    while i < n
        invariant
            i <= n,
            n == results@.len(),
            first_rating_for(results@, c@) == first_rating_for(results@.skip(i as int), c@),
        decreases n - i,
    {
        let ghost rest = results@.skip(i as int);
        proof {
            assert(rest[0] == results@[i as int]);
            assert(rest.skip(1) =~= results@.skip(i + 1));
        }
        let hit = match &results[i].country {
            Some(s) => chars_eq_str_string(s, c),
            None => false,
        };
        if hit {
            let rating = match &results[i].rating {
                Some(s) => Some(s.clone()),
                None => None,
            };
            return Some(rating);
        }
        i += 1;
    }
    proof {
        assert(results@.skip(n as int) =~= Seq::<RatingEntry>::empty());
    }
    None
}

/// Whether a `String` equals a `&str`, by characters.
fn chars_eq_str_string(a: &String, s: &str) -> (r: bool)
    ensures
        r == (a@ == s@),
{
    let av = str_to_chars(a.as_str());
    chars_eq_str(&av, s)
}

/// Picks the content rating: JP first, then US, then the first entry with
/// any rating at all.
pub fn find_best_rating(results: &Vec<RatingEntry>) -> (r: Option<String>)
    ensures
        r.deep_view() == best_rating_spec(results@),
{
    let jp = rating_for_country(results, "JP");
    let ghost jp_spec = first_rating_for(results@, "JP"@);
    match jp {
        Some(Some(r)) => {
            assert(jp_spec == Some(Some(r@)));
            return Some(r);
        },
        Some(None) => {
            assert(jp_spec == Some(None::<Seq<char>>));
        },
        None => {
            assert(jp_spec == None::<Option<Seq<char>>>);
        },
    }
    let us = rating_for_country(results, "US");
    let ghost us_spec = first_rating_for(results@, "US"@);
    match us {
        Some(Some(r)) => {
            assert(us_spec == Some(Some(r@)));
            return Some(r);
        },
        Some(None) => {
            assert(us_spec == Some(None::<Seq<char>>));
        },
        None => {
            assert(us_spec == None::<Option<Seq<char>>>);
        },
    }
    let n = results.len();
    let mut i: usize = 0;
    proof {
        assert(results@.skip(0) =~= results@);
    }
    while i < n
        invariant
            i <= n,
            n == results@.len(),
            first_any_rating(results@) == first_any_rating(results@.skip(i as int)),
            !(first_rating_for(results@, "JP"@) matches Some(Some(_))),
            !(first_rating_for(results@, "US"@) matches Some(Some(_))),
        decreases n - i,
    {
        let ghost rest = results@.skip(i as int);
        proof {
            assert(rest[0] == results@[i as int]);
            assert(rest.skip(1) =~= results@.skip(i + 1));
        }
        match &results[i].rating {
            Some(s) => {
                return Some(s.clone());
            },
            None => {},
        }
        i += 1;
    }
    proof {
        assert(results@.skip(n as int) =~= Seq::<RatingEntry>::empty());
    }
    None
}

/// The elements of an optional list, empty when absent.
pub open spec fn opt_list<T>(o: Option<Vec<T>>) -> Seq<T> {
    match o {
        Some(v) => v@,
        None => Seq::empty(),
    }
}

pub open spec fn cast_list(c: Option<CreditsRecord>) -> Seq<CastRecord> {
    match c {
        Some(cr) => opt_list(cr.cast),
        None => Seq::empty(),
    }
}

pub open spec fn crew_list(c: Option<CreditsRecord>) -> Seq<CrewRecord> {
    match c {
        Some(cr) => opt_list(cr.crew),
        None => Seq::empty(),
    }
}

/// A score on the hundredths scale reduced to the canonical 0-100 scale
/// by truncation: no rounding rule is stated for the movie/TV catalog's
/// vote averages, so the established truncating behavior is kept. The
/// external anime catalog's score rounds instead (`jikan::jikan_score`).
pub open spec fn score_of(h: Option<u16>) -> Option<i32> {
    match h {
        Some(v) => Some((v as int / 10) as i32),
        None => None,
    }
}

pub open spec fn poster_large(p: Option<String>) -> Option<Seq<char>> {
    match p {
        Some(s) => Some("https://image.tmdb.org/t/p/w500"@ + s@),
        None => None,
    }
}

pub open spec fn poster_xl(p: Option<String>) -> Option<Seq<char>> {
    match p {
        Some(s) => Some("https://image.tmdb.org/t/p/original"@ + s@),
        None => None,
    }
}

/// The cover image pair derived from one poster path.
fn cover_from_poster(p: &Option<String>) -> (r: UniversalCoverImage)
    ensures
        r.large.deep_view() == poster_large(*p),
        r.extra_large.deep_view() == poster_xl(*p),
{
    match p {
        Some(path) => {
            let large = "https://image.tmdb.org/t/p/w500".to_owned().concat(path.as_str());
            let xl = "https://image.tmdb.org/t/p/original".to_owned().concat(path.as_str());
            UniversalCoverImage { large: Some(large), extra_large: Some(xl) }
        },
        None => UniversalCoverImage { large: None, extra_large: None },
    }
}

/// The capped character list: the first six cast credits, in upstream
/// order, each named by the character played and voiced by the credit's
/// person, with the fixed role "Cast".
pub fn cast_to_characters(cast: &Vec<CastRecord>) -> (r: Vec<UniversalCharacter>)
    ensures
        r@.len() == vstd::math::min(cast@.len() as int, 6),
        forall|i: int| 0 <= i < r@.len() ==> {
            &&& (#[trigger] r@[i]).name@ == opt_str_or_empty(cast@[i].character)
            &&& r@[i].voice_actor.deep_view() == cast@[i].name.deep_view()
            &&& r@[i].role.deep_view() == Some("Cast"@)
        },
{
    let n = if cast.len() < 6 {
        cast.len()
    } else {
        6
    };
    let mut r: Vec<UniversalCharacter> = Vec::new();
    let mut i: usize = 0;
    while i < n
        invariant
            i <= n,
            n == vstd::math::min(cast@.len() as int, 6),
            r@.len() == i,
            forall|j: int| 0 <= j < i ==> {
                &&& (#[trigger] r@[j]).name@ == opt_str_or_empty(cast@[j].character)
                &&& r@[j].voice_actor.deep_view() == cast@[j].name.deep_view()
                &&& r@[j].role.deep_view() == Some("Cast"@)
            },
        decreases n - i,
    {
        let name = unwrap_or_empty(clone_opt_string(&cast[i].character));
        let voice_actor = clone_opt_string(&cast[i].name);
        r.push(UniversalCharacter { name, voice_actor, role: Some("Cast".to_owned()) });
        i += 1;
    }
    r
}

/// The capped staff list: the first ten crew credits, in upstream order.
pub fn crew_to_staff(crew: &Vec<CrewRecord>) -> (r: Vec<UniversalStaff>)
    ensures
        r@.len() == vstd::math::min(crew@.len() as int, 10),
        forall|i: int| 0 <= i < r@.len() ==> {
            &&& (#[trigger] r@[i]).name@ == opt_str_or_empty(crew@[i].name)
            &&& r@[i].role@ == opt_str_or_empty(crew@[i].job)
            &&& r@[i].department.deep_view() == crew@[i].department.deep_view()
        },
{
    let n = if crew.len() < 10 {
        crew.len()
    } else {
        10
    };
    let mut r: Vec<UniversalStaff> = Vec::new();
    let mut i: usize = 0;
    while i < n
        invariant
            i <= n,
            n == vstd::math::min(crew@.len() as int, 10),
            r@.len() == i,
            forall|j: int| 0 <= j < i ==> {
                &&& (#[trigger] r@[j]).name@ == opt_str_or_empty(crew@[j].name)
                &&& r@[j].role@ == opt_str_or_empty(crew@[j].job)
                &&& r@[j].department.deep_view() == crew@[j].department.deep_view()
            },
        decreases n - i,
    {
        let name = unwrap_or_empty(clone_opt_string(&crew[i].name));
        let role = unwrap_or_empty(clone_opt_string(&crew[i].job));
        let department = clone_opt_string(&crew[i].department);
        r.push(UniversalStaff { name, role, department });
        i += 1;
    }
    r
}

/// Characters and staff from an optional credits record.
fn credits_to_lists(credits: &Option<CreditsRecord>) -> (r: (
    Vec<UniversalCharacter>,
    Vec<UniversalStaff>,
))
    ensures
        r.0@.len() == vstd::math::min(cast_list(*credits).len() as int, 6),
        forall|i: int| 0 <= i < r.0@.len() ==> {
            &&& (#[trigger] r.0@[i]).name@ == opt_str_or_empty(cast_list(*credits)[i].character)
            &&& r.0@[i].voice_actor.deep_view() == cast_list(*credits)[i].name.deep_view()
            &&& r.0@[i].role.deep_view() == Some("Cast"@)
        },
        r.1@.len() == vstd::math::min(crew_list(*credits).len() as int, 10),
        forall|i: int| 0 <= i < r.1@.len() ==> {
            &&& (#[trigger] r.1@[i]).name@ == opt_str_or_empty(crew_list(*credits)[i].name)
            &&& r.1@[i].role@ == opt_str_or_empty(crew_list(*credits)[i].job)
            &&& r.1@[i].department.deep_view() == crew_list(*credits)[i].department.deep_view()
        },
{
    let empty_cast: Vec<CastRecord> = Vec::new();
    let empty_crew: Vec<CrewRecord> = Vec::new();
    let characters = match credits {
        Some(cr) => match &cr.cast {
            Some(c) => cast_to_characters(c),
            None => cast_to_characters(&empty_cast),
        },
        None => cast_to_characters(&empty_cast),
    };
    let staff = match credits {
        Some(cr) => match &cr.crew {
            Some(c) => crew_to_staff(c),
            None => crew_to_staff(&empty_crew),
        },
        None => crew_to_staff(&empty_crew),
    };
    (characters, staff)
}

/// The content rating a movie ends up with: precedence pick, else `R18`
/// for an adult-flagged record.
pub open spec fn movie_rating(rs: Seq<RatingEntry>, adult: Option<bool>) -> Option<Seq<char>> {
    match best_rating_spec(rs) {
        Some(r) => Some(r),
        None => if adult == Some(true) {
            Some("R18"@)
        } else {
            None
        },
    }
}

/// Maps a movie detail record onto the unified schema.
pub fn movie_to_unified(movie: MovieRecord) -> (r: UnifiedMetadata)
    ensures
        r.id@ == "movie/"@ + dec_of_int(match movie.id {
            Some(v) => v as int,
            None => 0,
        }),
        r.title.romaji is None && r.title.english is None,
        r.title.native.deep_view() == movie.title.deep_view(),
        r.cover_image.large.deep_view() == poster_large(movie.poster_path),
        r.cover_image.extra_large.deep_view() == poster_xl(movie.poster_path),
        r.average_score == score_of(movie.vote_average_hundredths),
        r.episodes is None,
        r.genres.deep_view() == kept_names(opt_list(movie.genres)),
        r.description.deep_view() == movie.overview.deep_view(),
        r.studios.deep_view() == kept_names(opt_list(movie.production_companies)),
        r.characters@.len() == vstd::math::min(cast_list(movie.credits).len() as int, 6),
        forall|i: int| 0 <= i < r.characters@.len() ==> {
            &&& (#[trigger] r.characters@[i]).name@ == opt_str_or_empty(
                cast_list(movie.credits)[i].character,
            )
            &&& r.characters@[i].voice_actor.deep_view() == cast_list(
                movie.credits,
            )[i].name.deep_view()
            &&& r.characters@[i].role.deep_view() == Some("Cast"@)
        },
        r.staff@.len() == vstd::math::min(crew_list(movie.credits).len() as int, 10),
        forall|i: int| 0 <= i < r.staff@.len() ==> {
            &&& (#[trigger] r.staff@[i]).name@ == opt_str_or_empty(crew_list(movie.credits)[i].name)
            &&& r.staff@[i].role@ == opt_str_or_empty(crew_list(movie.credits)[i].job)
            &&& r.staff@[i].department.deep_view() == crew_list(
                movie.credits,
            )[i].department.deep_view()
        },
        r.episodes_list@.len() == 0,
        r.is_finished == (movie.status.deep_view() == Some("Released"@)),
        r.total_seasons is None && r.current_season is None,
        r.runtime == movie.runtime,
        r.content_rating.deep_view() == movie_rating(opt_list(movie.release_dates), movie.adult),
{
    let MovieRecord {
        id,
        title,
        poster_path,
        genres,
        overview,
        release_dates,
        credits,
        production_companies,
        vote_average_hundredths,
        status,
        runtime,
        adult,
    } = movie;

    let id_num: i64 = match id {
        Some(v) => v as i64,
        None => 0,
    };
    let uid = "movie/".to_owned().concat(i64_to_string(id_num).as_str());

    let cover_image = cover_from_poster(&poster_path);

    let empty_names: Vec<Option<String>> = Vec::new();
    let genres_v = match &genres {
        Some(g) => collect_names(g),
        None => collect_names(&empty_names),
    };
    let studios_v = match &production_companies {
        Some(g) => collect_names(g),
        None => collect_names(&empty_names),
    };

    let (characters, staff) = credits_to_lists(&credits);

    let empty_ratings: Vec<RatingEntry> = Vec::new();
    let picked = match &release_dates {
        Some(rs) => find_best_rating(rs),
        None => find_best_rating(&empty_ratings),
    };
    let is_adult = match adult {
        Some(b) => b,
        None => false,
    };
    let content_rating = match picked {
        Some(rr) => Some(rr),
        None => if is_adult {
            Some("R18".to_owned())
        } else {
            None
        },
    };

    let average_score: Option<i32> = match vote_average_hundredths {
        Some(h) => Some((h / 10) as i32),
        None => None,
    };

    let is_finished = match &status {
        Some(s) => chars_eq_str_string(s, "Released"),
        None => false,
    };

    UnifiedMetadata {
        id: uid,
        title: UniversalTitle { romaji: None, english: None, native: title },
        cover_image,
        average_score,
        episodes: None,
        genres: genres_v,
        description: overview,
        studios: studios_v,
        characters,
        staff,
        episodes_list: Vec::new(),
        is_finished,
        total_seasons: None,
        current_season: None,
        runtime,
        content_rating,
    }
}

pub open spec fn poster_large_of(p: Option<Seq<char>>) -> Option<Seq<char>> {
    match p {
        Some(s) => Some("https://image.tmdb.org/t/p/w500"@ + s),
        None => None,
    }
}

pub open spec fn poster_xl_of(p: Option<Seq<char>>) -> Option<Seq<char>> {
    match p {
        Some(s) => Some("https://image.tmdb.org/t/p/original"@ + s),
        None => None,
    }
}

/// Display title of a season: the show's own name when the two names
/// agree, otherwise `"{show} : {season}"`.
pub open spec fn tv_title(show_name: Option<String>, season_name: Option<String>) -> Seq<char> {
    let a = opt_str_or_empty(show_name);
    let b = opt_str_or_empty(season_name);
    if a == b {
        a
    } else {
        a + " : "@ + b
    }
}

/// First of two optional strings, by presence.
pub open spec fn first_present(a: Option<String>, b: Option<String>) -> Option<Seq<char>> {
    if a is Some {
        a.deep_view()
    } else {
        b.deep_view()
    }
}

/// The merged genre list: the season's own genres when it has any,
/// otherwise the parent show's.
pub open spec fn merged_genres(
    season_genres: Seq<Option<String>>,
    show_genres: Option<Vec<Option<String>>>,
) -> Seq<Seq<char>> {
    if kept_names(season_genres).len() > 0 {
        kept_names(season_genres)
    } else {
        kept_names(opt_list(show_genres))
    }
}

/// The merge law for genres: a season with no genres of its own takes the
/// parent show's list unchanged, and a season with its own keeps them,
/// whatever the parent has.
pub proof fn lemma_merge_prefers_season_genres(
    season_genres: Seq<Option<String>>,
    show_genres: Option<Vec<Option<String>>>,
)
    ensures
        kept_names(season_genres).len() == 0 ==> merged_genres(season_genres, show_genres)
            == kept_names(opt_list(show_genres)),
        kept_names(season_genres).len() > 0 ==> merged_genres(season_genres, show_genres)
            == kept_names(season_genres),
{
}

/// The merged score: the season's own unless absent or the placeholder
/// zero, then the parent's; reduced to the 0-100 scale.
pub open spec fn merged_score(season_h: Option<u16>, show_h: Option<u16>) -> Option<i32> {
    if season_h matches Some(v) && v != 0 {
        score_of(season_h)
    } else {
        score_of(show_h)
    }
}

/// The merged overview: the season's unless absent or empty, then the
/// show's.
pub open spec fn merged_overview(
    season_ov: Option<String>,
    show_ov: Option<String>,
) -> Option<Seq<char>> {
    match season_ov {
        Some(s) => if s@.len() > 0 {
            Some(s@)
        } else {
            show_ov.deep_view()
        },
        None => show_ov.deep_view(),
    }
}

/// Season credits when present, else the show's.
pub open spec fn merged_credits(
    season_credits: Option<CreditsRecord>,
    show_credits: Option<CreditsRecord>,
) -> Option<CreditsRecord> {
    if season_credits is Some {
        season_credits
    } else {
        show_credits
    }
}

/// Episode runtime preference: the first episode's explicit runtime, else
/// the show's default episode runtime.
pub open spec fn tv_runtime(eps: Seq<EpisodeRecord>, run: Option<Vec<i32>>) -> Option<i32> {
    let first_ep: Option<i32> = if eps.len() > 0 {
        eps[0].runtime
    } else {
        None
    };
    match first_ep {
        Some(r) => Some(r),
        None => match run {
            Some(v) => if v@.len() > 0 {
                Some(v@[0])
            } else {
                None
            },
            None => None,
        },
    }
}

/// Maps the episodes of a season listing onto the unified per-episode
/// records, in order.
pub fn episodes_to_list(eps: &Vec<EpisodeRecord>) -> (r: Vec<UniversalEpisode>)
    ensures
        r@.len() == eps@.len(),
        forall|i: int| 0 <= i < r@.len() ==> {
            &&& (#[trigger] r@[i]).number == (match eps@[i].episode_number {
                Some(v) => v,
                None => 0,
            })
            &&& r@[i].title.deep_view() == eps@[i].name.deep_view()
            &&& r@[i].air_date.deep_view() == eps@[i].air_date.deep_view()
            &&& r@[i].overview.deep_view() == eps@[i].overview.deep_view()
            &&& r@[i].runtime == eps@[i].runtime
        },
{
    let n = eps.len();
    let mut r: Vec<UniversalEpisode> = Vec::new();
    let mut i: usize = 0;
    while i < n
        invariant
            i <= n,
            n == eps@.len(),
            r@.len() == i,
            forall|j: int| 0 <= j < i ==> {
                &&& (#[trigger] r@[j]).number == (match eps@[j].episode_number {
                    Some(v) => v,
                    None => 0,
                })
                &&& r@[j].title.deep_view() == eps@[j].name.deep_view()
                &&& r@[j].air_date.deep_view() == eps@[j].air_date.deep_view()
                &&& r@[j].overview.deep_view() == eps@[j].overview.deep_view()
                &&& r@[j].runtime == eps@[j].runtime
            },
        decreases n - i,
    {
        let number = match eps[i].episode_number {
            Some(v) => v,
            None => 0,
        };
        let title = clone_opt_string(&eps[i].name);
        let air_date = clone_opt_string(&eps[i].air_date);
        let overview = clone_opt_string(&eps[i].overview);
        let runtime = eps[i].runtime;
        r.push(UniversalEpisode { number, title, air_date, overview, runtime });
        i += 1;
    }
    r
}

/// Maps a parent show and one of its seasons onto the unified schema,
/// merging per the season/parent rule: a season field that is empty,
/// absent, or the placeholder zero score is replaced by the parent's
/// value, and `total_seasons` always comes from the parent.
pub fn tv_to_unified(show: TvShowRecord, season: TvSeasonRecord) -> (r: UnifiedMetadata)
    requires
        opt_list(season.episodes).len() <= i32::MAX,
    ensures
        r.id@ == "tv/"@ + dec_of_int(match show.id {
            Some(v) => v as int,
            None => 0,
        }) + "/season/"@ + dec_of_int(match season.season_number {
            Some(v) => v as int,
            None => 1,
        }),
        r.title.romaji is None && r.title.english is None,
        r.title.native.deep_view() == Some(tv_title(show.name, season.name)),
        r.cover_image.large.deep_view() == poster_large_of(
            first_present(season.poster_path, show.poster_path),
        ),
        r.cover_image.extra_large.deep_view() == poster_xl_of(
            first_present(season.poster_path, show.poster_path),
        ),
        r.average_score == merged_score(season.vote_average_hundredths,
            show.vote_average_hundredths),
        r.episodes == Some(opt_list(season.episodes).len() as i32),
        r.genres.deep_view() == merged_genres(season.genres@, show.genres),
        r.description.deep_view() == merged_overview(season.overview, show.overview),
        r.studios.deep_view() == kept_names(opt_list(show.production_companies)),
        r.characters@.len() == vstd::math::min(
            cast_list(merged_credits(season.credits, show.credits)).len() as int,
            6,
        ),
        forall|i: int| 0 <= i < r.characters@.len() ==> {
            &&& (#[trigger] r.characters@[i]).name@ == opt_str_or_empty(
                cast_list(merged_credits(season.credits, show.credits))[i].character,
            )
            &&& r.characters@[i].voice_actor.deep_view() == cast_list(
                merged_credits(season.credits, show.credits),
            )[i].name.deep_view()
            &&& r.characters@[i].role.deep_view() == Some("Cast"@)
        },
        r.staff@.len() == vstd::math::min(
            crew_list(merged_credits(season.credits, show.credits)).len() as int,
            10,
        ),
        forall|i: int| 0 <= i < r.staff@.len() ==> {
            &&& (#[trigger] r.staff@[i]).name@ == opt_str_or_empty(
                crew_list(merged_credits(season.credits, show.credits))[i].name,
            )
            &&& r.staff@[i].role@ == opt_str_or_empty(
                crew_list(merged_credits(season.credits, show.credits))[i].job,
            )
            &&& r.staff@[i].department.deep_view() == crew_list(
                merged_credits(season.credits, show.credits),
            )[i].department.deep_view()
        },
        r.episodes_list@.len() == opt_list(season.episodes).len(),
        forall|i: int| 0 <= i < r.episodes_list@.len() ==> {
            &&& (#[trigger] r.episodes_list@[i]).number == (
            match opt_list(season.episodes)[i].episode_number {
                Some(v) => v,
                None => 0,
            })
            &&& r.episodes_list@[i].title.deep_view() == opt_list(
                season.episodes,
            )[i].name.deep_view()
            &&& r.episodes_list@[i].air_date.deep_view() == opt_list(
                season.episodes,
            )[i].air_date.deep_view()
            &&& r.episodes_list@[i].overview.deep_view() == opt_list(
                season.episodes,
            )[i].overview.deep_view()
            &&& r.episodes_list@[i].runtime == opt_list(season.episodes)[i].runtime
        },
        r.is_finished == (show.status.deep_view() == Some("Ended"@) || show.status.deep_view()
            == Some("Canceled"@)),
        r.total_seasons == show.number_of_seasons,
        r.current_season == Some(match season.season_number {
            Some(v) => v,
            None => 1,
        }),
        r.runtime == tv_runtime(opt_list(season.episodes), show.episode_run_time),
        r.content_rating.deep_view() == movie_rating(opt_list(show.content_ratings), show.adult),
{
    let TvShowRecord {
        id,
        name: show_name,
        poster_path: show_poster,
        genres: show_genres,
        production_companies,
        credits: show_credits,
        content_ratings,
        status,
        episode_run_time,
        overview: show_overview,
        number_of_seasons,
        vote_average_hundredths: show_score,
        adult,
    } = show;
    let TvSeasonRecord {
        name: season_name,
        poster_path: season_poster,
        overview: season_overview,
        episodes,
        season_number,
        credits: season_credits,
        genres: season_genres,
        vote_average_hundredths: season_score,
    } = season;

    let show_id_num: i64 = match id {
        Some(v) => v as i64,
        None => 0,
    };
    let season_num: i32 = match season_number {
        Some(v) => v,
        None => 1,
    };
    let uid = "tv/".to_owned().concat(i64_to_string(show_id_num).as_str()).concat(
        "/season/",
    ).concat(i64_to_string(season_num as i64).as_str());

    let show_name_s = unwrap_or_empty(show_name);
    let season_name_s = unwrap_or_empty(season_name);
    let native: String = if show_name_s == season_name_s {
        show_name_s
    } else {
        show_name_s.concat(" : ").concat(season_name_s.as_str())
    };

    let poster = match season_poster {
        Some(p) => Some(p),
        None => show_poster,
    };
    let cover_image = cover_from_poster(&poster);
    proof {
        assert(poster_large(poster) == poster_large_of(poster.deep_view()));
        assert(poster_xl(poster) == poster_xl_of(poster.deep_view()));
    }

    let empty_names: Vec<Option<String>> = Vec::new();
    let season_kept = collect_names(&season_genres);
    let genres_v = if season_kept.len() > 0 {
        season_kept
    } else {
        match &show_genres {
            Some(g) => collect_names(g),
            None => collect_names(&empty_names),
        }
    };
    let studios_v = match &production_companies {
        Some(g) => collect_names(g),
        None => collect_names(&empty_names),
    };

    let credits = match season_credits {
        Some(c) => Some(c),
        None => show_credits,
    };
    let (characters, staff) = credits_to_lists(&credits);

    let empty_eps: Vec<EpisodeRecord> = Vec::new();
    let episodes_list = match &episodes {
        Some(e) => episodes_to_list(e),
        None => episodes_to_list(&empty_eps),
    };
    let ep_count = episodes_list.len() as i32;

    let first_ep_runtime: Option<i32> = match &episodes {
        Some(e) => if e.len() > 0 {
            e[0].runtime
        } else {
            None
        },
        None => None,
    };
    let runtime = match first_ep_runtime {
        Some(rt) => Some(rt),
        None => match &episode_run_time {
            Some(v) => if v.len() > 0 {
                Some(v[0])
            } else {
                None
            },
            None => None,
        },
    };

    let description = match season_overview {
        Some(s) => if s.as_str().unicode_len() > 0 {
            Some(s)
        } else {
            show_overview
        },
        None => show_overview,
    };

    let average_score: Option<i32> = {
        let eff = match season_score {
            Some(v) => if v != 0 {
                Some(v)
            } else {
                show_score
            },
            None => show_score,
        };
        match eff {
            Some(h) => Some((h / 10) as i32),
            None => None,
        }
    };

    let empty_ratings: Vec<RatingEntry> = Vec::new();
    let picked = match &content_ratings {
        Some(rs) => find_best_rating(rs),
        None => find_best_rating(&empty_ratings),
    };
    let is_adult = match adult {
        Some(b) => b,
        None => false,
    };
    let content_rating = match picked {
        Some(rr) => Some(rr),
        None => if is_adult {
            Some("R18".to_owned())
        } else {
            None
        },
    };

    let is_finished = match &status {
        Some(s) => chars_eq_str_string(s, "Ended") || chars_eq_str_string(s, "Canceled"),
        None => false,
    };

    UnifiedMetadata {
        id: uid,
        title: UniversalTitle { romaji: None, english: None, native: Some(native) },
        cover_image,
        average_score,
        episodes: Some(ep_count),
        genres: genres_v,
        description,
        studios: studios_v,
        characters,
        staff,
        episodes_list,
        is_finished,
        total_seasons: number_of_seasons,
        current_season: Some(season_num),
        runtime,
        content_rating,
    }
}

/// How a TMDB lookup will proceed: straight to the details calls, or
/// through the multi-search first.
#[derive(Debug, Clone, PartialEq)]
pub enum TmdbPlan {
    Direct(String, MediaType),
    Search(String),
}

/// The lookup decision: a given id is parsed as a composite identifier;
/// without one the title, normalized, goes to the search; with neither
/// the input is invalid.
pub fn tmdb_plan(id: Option<&str>, title: Option<&str>) -> (r: Result<TmdbPlan, MetaError>)
    ensures
        match id {
            Some(s) => match parse_id_spec(s@) {
                ParsedId::Invalid => r == Err::<TmdbPlan, MetaError>(MetaError::InvalidInput),
                ParsedId::MovieId(m) => r matches Ok(TmdbPlan::Direct(mid, mt)) && mid@ == m
                    && mt == MediaType::Movie,
                ParsedId::TvId { show, season } => r matches Ok(TmdbPlan::Direct(mid, mt))
                    && mid@ == show && (mt matches MediaType::Tv { show_id, season: sn }
                    && show_id@ == show && sn == season),
            },
            None => match title {
                Some(t) => r matches Ok(TmdbPlan::Search(q)) && q@
                    == crate::title::normalize_spec(t@),
                None => r == Err::<TmdbPlan, MetaError>(MetaError::InvalidInput),
            },
        },
{
    match id {
        Some(s) => match parse_tmdb_id(s) {
            Ok((mid, mt)) => Ok(TmdbPlan::Direct(mid, mt)),
            Err(e) => Err(e),
        },
        None => match title {
            Some(t) => Ok(TmdbPlan::Search(crate::title::normalize_title(t))),
            None => Err(MetaError::InvalidInput),
        },
    }
}

/// The digits of an id that may carry a slug: everything before the first
/// dash, or the whole id when there is none.
pub open spec fn id_num_prefix(s: Seq<char>) -> Seq<char> {
    let k = crate::text::first_ch(s, '-');
    if k < 0 {
        s
    } else {
        s.take(k)
    }
}

/// Reads the numeric id off the front of a possibly slugged id string
/// ("123-show-name" yields 123). Fails exactly when the part before the
/// first dash is empty, not all digits, or out of range.
pub fn extract_numeric_id(id: &str) -> (r: Result<i32, MetaError>)
    ensures
        ({
            let p = id_num_prefix(id@);
            match r {
                Ok(n) => p.len() > 0 && all_digits(p) && n == dec_val(p),
                Err(e) => e == MetaError::InvalidInput && (p.len() == 0 || !all_digits(p)
                    || dec_val(p) > i32::MAX),
            }
        }),
{
    let chars = str_to_chars(id);
    let n = chars.len();
    let mut prefix: Vec<char> = Vec::new();
    let mut i: usize = 0;
    proof {
        crate::text::lemma_first_ch(chars@, '-');
    }
    while i < n && chars[i] != '-'
        invariant
            i <= n,
            n == chars@.len(),
            prefix@ == chars@.take(i as int),
            forall|j: int| 0 <= j < i ==> chars@[j] != '-',
        decreases n - i,
    {
        prefix.push(chars[i]);
        assert(prefix@ =~= chars@.take(i + 1));
        i += 1;
    }
    proof {
        let k = crate::text::first_ch(chars@, '-');
        crate::text::lemma_first_ch(chars@, '-');
        if i < n {
            assert(chars@[i as int] == '-');
            assert(k == i) by {
                if k < i {
                    assert(chars@[k] != '-');
                }
                if k > i {
                    assert(chars@[i as int] != '-');
                }
            }
        } else {
            assert(k == -1) by {
                if k >= 0 {
                    assert(chars@[k] == '-');
                }
            }
            assert(chars@.take(n as int) =~= chars@);
        }
        assert(prefix@ == id_num_prefix(id@));
    }
    match parse_dec_i32(&prefix) {
        Some(v) => Ok(v),
        None => Err(MetaError::InvalidInput),
    }
}

/// Media kind reported for one multi-search result.
#[derive(Debug, Clone, Copy, PartialEq, Eq, Structural)]
pub enum SearchKind {
    MovieResult,
    TvResult,
    OtherResult,
}

/// One entry of the upstream multi-search response: its media kind, its
/// numeric id, and its release or first-air date.
#[derive(Debug, Clone, PartialEq)]
pub struct SearchEntry {
    pub kind: SearchKind,
    pub id: Option<i64>,
    pub date: Option<String>,
}

/// An entry the selector may pick: a movie or TV result with an id.
pub open spec fn entry_eligible(e: SearchEntry) -> bool {
    !(e.kind is OtherResult) && e.id is Some
}

/// The year encoded in the first four characters of a date string.
pub open spec fn date_year(d: Seq<char>) -> Option<int> {
    if d.len() >= 4 && all_digits(d.take(4)) && dec_val(d.take(4)) <= i32::MAX {
        Some(dec_val(d.take(4)))
    } else {
        None
    }
}

pub open spec fn entry_year(e: SearchEntry) -> Option<int> {
    match e.date {
        Some(d) => date_year(d@),
        None => None,
    }
}

/// First eligible entry whose year equals `y` exactly.
pub open spec fn find_exact(rs: Seq<SearchEntry>, y: int) -> Option<SearchEntry>
    decreases rs.len(),
{
    if rs.len() == 0 {
        None
    } else if entry_eligible(rs[0]) && entry_year(rs[0]) == Some(y) {
        Some(rs[0])
    } else {
        find_exact(rs.skip(1), y)
    }
}

/// First eligible entry whose year is within one of `y`.
pub open spec fn find_near(rs: Seq<SearchEntry>, y: int) -> Option<SearchEntry>
    decreases rs.len(),
{
    if rs.len() == 0 {
        None
    } else if entry_eligible(rs[0]) && (entry_year(rs[0]) matches Some(ry) && -1 <= ry - y <= 1) {
        Some(rs[0])
    } else {
        find_near(rs.skip(1), y)
    }
}

/// First eligible entry of any year.
pub open spec fn find_any(rs: Seq<SearchEntry>) -> Option<SearchEntry>
    decreases rs.len(),
{
    if rs.len() == 0 {
        None
    } else if entry_eligible(rs[0]) {
        Some(rs[0])
    } else {
        find_any(rs.skip(1))
    }
}

/// The selection rule for search results: with a target year, the first
/// exact-year match, else the first within one year; without a target
/// year, the first movie or TV entry.
pub open spec fn selected_entry(rs: Seq<SearchEntry>, year: Option<i32>) -> Option<SearchEntry> {
    match year {
        Some(y) => match find_exact(rs, y as int) {
            Some(e) => Some(e),
            None => find_near(rs, y as int),
        },
        None => find_any(rs),
    }
}

/// The year of `e`'s date, when its first four characters are digits.
fn year_of_entry(e: &SearchEntry) -> (r: Option<i32>)
    ensures
        match (r, entry_year(*e)) {
            (Some(a), Some(b)) => a as int == b,
            (None, None) => true,
            _ => false,
        },
{
    match &e.date {
        Some(d) => {
            let chars = str_to_chars(d.as_str());
            if chars.len() < 4 {
                return None;
            }
            let mut four: Vec<char> = Vec::new();
            four.push(chars[0]);
            four.push(chars[1]);
            four.push(chars[2]);
            four.push(chars[3]);
            assert(four@ =~= chars@.take(4));
            match parse_dec_i32(&four) {
                Some(v) => Some(v),
                None => None,
            }
        },
        None => None,
    }
}

/// Whether the selector may pick `e`, with its id when it may.
fn eligible_id(e: &SearchEntry) -> (r: Option<i64>)
    ensures
        match r {
            Some(v) => entry_eligible(*e) && e.id == Some(v),
            None => !entry_eligible(*e),
        },
{
    match e.kind {
        SearchKind::OtherResult => None,
        _ => match e.id {
            Some(v) => Some(v),
            None => None,
        },
    }
}

/// Applies the selection rule to a search response and produces the id
/// and addressing mode of the chosen entry, or `NotFoundUpstream` when no
/// entry qualifies.
pub fn select_search_result(results: &Vec<SearchEntry>, year: Option<i32>) -> (r: Result<
    (String, MediaType),
    MetaError,
>)
    ensures
        match selected_entry(results@, year) {
            Some(e) => r matches Ok(p) && e.id matches Some(idv) && p.0@ == dec_of_int(idv as int)
                && (e.kind is TvResult ==> (p.1 matches MediaType::Tv { show_id, season }
                && show_id@ == dec_of_int(idv as int) && season == 1)) && (e.kind is MovieResult
                ==> p.1 == MediaType::Movie),
            None => r == Err::<(String, MediaType), MetaError>(MetaError::NotFoundUpstream),
        },
{
    let n = results.len();
    let mut chosen: Option<usize> = None;
    match year {
        Some(y) => {
            let mut i: usize = 0;
            proof {
                assert(results@.skip(0) =~= results@);
            }
            while i < n && chosen.is_none()
                invariant
                    i <= n,
                    n == results@.len(),
                    match chosen {
                        Some(k) => k < n && entry_eligible(results@[k as int]) && find_exact(
                            results@,
                            y as int,
                        ) == Some(results@[k as int]),
                        None => find_exact(results@, y as int) == find_exact(
                            results@.skip(i as int),
                            y as int,
                        ),
                    },
                decreases n - i, (if chosen.is_none() { 1int } else { 0int }),
            {
                let ghost rest = results@.skip(i as int);
                proof {
                    assert(rest[0] == results@[i as int]);
                    assert(rest.skip(1) =~= results@.skip(i + 1));
                }
                let ok = match (eligible_id(&results[i]), year_of_entry(&results[i])) {
                    (Some(_), Some(ry)) => ry == y,
                    _ => false,
                };
                if ok {
                    chosen = Some(i);
                } else {
                    i += 1;
                }
            }
            proof {
                if chosen is None {
                    assert(results@.skip(n as int) =~= Seq::<SearchEntry>::empty());
                }
            }
            if chosen.is_none() {
                let mut j: usize = 0;
                proof {
                    assert(results@.skip(0) =~= results@);
                }
                while j < n && chosen.is_none()
                    invariant
                        j <= n,
                        n == results@.len(),
                        find_exact(results@, y as int) is None,
                        match chosen {
                            Some(k) => k < n && entry_eligible(results@[k as int]) && find_near(
                                results@,
                                y as int,
                            ) == Some(results@[k as int]),
                            None => find_near(results@, y as int) == find_near(
                                results@.skip(j as int),
                                y as int,
                            ),
                        },
                    decreases n - j, (if chosen.is_none() { 1int } else { 0int }),
                {
                    let ghost rest = results@.skip(j as int);
                    proof {
                        assert(rest[0] == results@[j as int]);
                        assert(rest.skip(1) =~= results@.skip(j + 1));
                    }
                    let ok = match (eligible_id(&results[j]), year_of_entry(&results[j])) {
                        (Some(_), Some(ry)) => {
                            let d = ry as i64 - y as i64;
                            -1 <= d && d <= 1
                        },
                        _ => false,
                    };
                    if ok {
                        chosen = Some(j);
                    } else {
                        j += 1;
                    }
                }
                proof {
                    if chosen is None {
                        assert(results@.skip(n as int) =~= Seq::<SearchEntry>::empty());
                    }
                }
            }
        },
        None => {
            let mut i: usize = 0;
            proof {
                assert(results@.skip(0) =~= results@);
            }
            while i < n && chosen.is_none()
                invariant
                    i <= n,
                    n == results@.len(),
                    match chosen {
                        Some(k) => k < n && entry_eligible(results@[k as int]) && find_any(
                            results@,
                        ) == Some(results@[k as int]),
                        None => find_any(results@) == find_any(results@.skip(i as int)),
                    },
                decreases n - i, (if chosen.is_none() { 1int } else { 0int }),
            {
                let ghost rest = results@.skip(i as int);
                proof {
                    assert(rest[0] == results@[i as int]);
                    assert(rest.skip(1) =~= results@.skip(i + 1));
                }
                let ok = match eligible_id(&results[i]) {
                    Some(_) => true,
                    None => false,
                };
                if ok {
                    chosen = Some(i);
                } else {
                    i += 1;
                }
            }
            proof {
                if chosen is None {
                    assert(results@.skip(n as int) =~= Seq::<SearchEntry>::empty());
                }
            }
        },
    }
    match chosen {
        Some(k) => {
            let idv = match results[k].id {
                Some(v) => v,
                None => 0,
            };
            let id_str = i64_to_string(idv);
            match results[k].kind {
                SearchKind::TvResult => {
                    let id_str2 = i64_to_string(idv);
                    Ok((id_str, MediaType::Tv { show_id: id_str2, season: 1 }))
                },
                _ => Ok((id_str, MediaType::Movie)),
            }
        },
        None => Err(MetaError::NotFoundUpstream),
    }
}

} // verus!
