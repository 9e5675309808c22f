//! The AniList resolver logic: the request plan (direct lookup by numeric
//! id, else a single best-match title search) and the mapping of a media
//! record onto the unified schema.

use vstd::prelude::*;
use crate::MetaError;
use crate::model::{UnifiedMetadata, UniversalCharacter, UniversalCoverImage, UniversalTitle};
use crate::text::{
    all_digits, dec_of_int, dec_val, i64_to_string, opt_str_or_empty, parse_dec_i32, str_to_chars,
    unwrap_or_empty, clone_opt_string,
};
use crate::tmdb::opt_list;

verus! {

#[derive(Default, Debug, Clone, PartialEq)]
pub struct AniListTitle {
    pub romaji: Option<String>,
    pub english: Option<String>,
    pub native: Option<String>,
}

#[derive(Default, Debug, Clone, PartialEq)]
pub struct AniListCoverImage {
    pub large: Option<String>,
    pub extra_large: Option<String>,
}

#[derive(Default, Debug, Clone, PartialEq)]
pub struct AniListName {
    pub full: Option<String>,
}

#[derive(Default, Debug, Clone, PartialEq)]
pub struct AniListStudioNode {
    pub name: Option<String>,
}

#[derive(Default, Debug, Clone, PartialEq)]
pub struct AniListStudios {
    pub nodes: Option<Vec<AniListStudioNode>>,
}

#[derive(Default, Debug, Clone, PartialEq)]
pub struct AniListCharacterNode {
    pub name: Option<AniListName>,
}

#[derive(Default, Debug, Clone, PartialEq)]
pub struct AniListVoiceActor {
    pub name: Option<AniListName>,
}

#[derive(Default, Debug, Clone, PartialEq)]
pub struct AniListCharacterEdge {
    pub role: Option<String>,
    pub node: Option<AniListCharacterNode>,
    pub voice_actors: Option<Vec<AniListVoiceActor>>,
}

#[derive(Default, Debug, Clone, PartialEq)]
pub struct AniListCharacters {
    pub edges: Option<Vec<AniListCharacterEdge>>,
}

/// A media record as the GraphQL endpoint reports it. `genres` entries
/// that were not strings in the payload are `None` and are dropped by the
/// mapping; `average_score` is already on the canonical 0-100 scale.
#[derive(Default, Debug, Clone, PartialEq)]
pub struct AniListMedia {
    pub id: i64,
    pub title: Option<AniListTitle>,
    pub cover_image: Option<AniListCoverImage>,
    pub average_score: Option<i32>,
    pub episodes: Option<i32>,
    pub status: Option<String>,
    pub genres: Option<Vec<Option<String>>>,
    pub description: Option<String>,
    pub studios: Option<AniListStudios>,
    pub characters: Option<AniListCharacters>,
}

/// How the provider will query the endpoint.
#[derive(Debug, Clone, PartialEq)]
pub enum AnilistQuery {
    ById(i32),
    ByTitle(String),
}

/// The request plan: a present id must be numeric (else the input is
/// invalid); without an id a title is required.
pub fn anilist_request(id: Option<&str>, title: Option<&str>) -> (r: Result<
    AnilistQuery,
    MetaError,
>)
    ensures
        match id {
            Some(s) => {
                if s@.len() > 0 && all_digits(s@) && dec_val(s@) <= i32::MAX {
                    r matches Ok(AnilistQuery::ById(v)) && v == dec_val(s@)
                } else {
                    r == Err::<AnilistQuery, MetaError>(MetaError::InvalidInput)
                }
            },
            None => match title {
                Some(t) => r matches Ok(AnilistQuery::ByTitle(q)) && q@ == t@,
                None => r == Err::<AnilistQuery, MetaError>(MetaError::InvalidInput),
            },
        },
{
    match id {
        Some(s) => {
            let chars = str_to_chars(s);
            match parse_dec_i32(&chars) {
                Some(v) => Ok(AnilistQuery::ById(v)),
                None => Err(MetaError::InvalidInput),
            }
        },
        None => match title {
            Some(t) => Ok(AnilistQuery::ByTitle(t.to_owned())),
            None => Err(MetaError::InvalidInput),
        },
    }
}

/// The studio names that are present, in node order.
pub open spec fn kept_studio_names(nodes: Seq<AniListStudioNode>) -> Seq<Seq<char>>
    decreases nodes.len(),
{
    if nodes.len() == 0 {
        Seq::empty()
    } else {
        let rest = kept_studio_names(nodes.skip(1));
        match nodes[0].name {
            Some(s) => seq![s@] + rest,
            None => rest,
        }
    }
}

pub open spec fn studio_nodes(s: Option<AniListStudios>) -> Seq<AniListStudioNode> {
    match s {
        Some(st) => opt_list(st.nodes),
        None => Seq::empty(),
    }
}

pub open spec fn character_edges(c: Option<AniListCharacters>) -> Seq<AniListCharacterEdge> {
    match c {
        Some(ch) => opt_list(ch.edges),
        None => Seq::empty(),
    }
}

/// The display name of a character edge; empty when any layer is absent.
pub open spec fn edge_char_name(e: AniListCharacterEdge) -> Seq<char> {
    match e.node {
        Some(n) => match n.name {
            Some(nm) => opt_str_or_empty(nm.full),
            None => Seq::empty(),
        },
        None => Seq::empty(),
    }
}

/// The first voice actor's full name, when there is one.
pub open spec fn edge_voice(e: AniListCharacterEdge) -> Option<Seq<char>> {
    match e.voice_actors {
        Some(v) => if v@.len() > 0 {
            match v@[0].name {
                Some(nm) => nm.full.deep_view(),
                None => None,
            }
        } else {
            None
        },
        None => None,
    }
}

/// `genres` and `kept_names` share the drop-the-non-strings semantics.
pub open spec fn kept_genres(g: Option<Vec<Option<String>>>) -> Seq<Seq<char>> {
    crate::tmdb::kept_names(opt_list(g))
}

/// Whether the status string marks the title as finished: FINISHED and
/// CANCELLED do, everything else (RELEASING among them) does not.
pub open spec fn anilist_finished(status: Option<String>) -> bool {
    match status {
        Some(s) => s@ == "FINISHED"@ || s@ == "CANCELLED"@,
        None => false,
    }
}

/// Maps a media record onto the unified schema. The score passes through
/// unchanged (the source is already on the 0-100 scale); no season,
/// staff, episode-list or rating data exists for this provider, so those
/// stay absent.
pub fn anilist_to_unified(media: AniListMedia) -> (r: UnifiedMetadata)
    ensures
        r.id@ == dec_of_int(media.id as int),
        (match media.title {
            Some(t) => r.title.romaji.deep_view() == t.romaji.deep_view()
                && r.title.english.deep_view() == t.english.deep_view()
                && r.title.native.deep_view() == t.native.deep_view(),
            None => r.title.romaji is None && r.title.english is None && r.title.native is None,
        }),
        (match media.cover_image {
            Some(c) => r.cover_image.large.deep_view() == c.large.deep_view()
                && r.cover_image.extra_large.deep_view() == c.extra_large.deep_view(),
            None => r.cover_image.large is None && r.cover_image.extra_large is None,
        }),
        r.average_score == media.average_score,
        r.episodes == media.episodes,
        r.genres.deep_view() == kept_genres(media.genres),
        r.description.deep_view() == media.description.deep_view(),
        r.studios.deep_view() == kept_studio_names(studio_nodes(media.studios)),
        r.characters@.len() == character_edges(media.characters).len(),
        forall|i: int| 0 <= i < r.characters@.len() ==> {
            &&& (#[trigger] r.characters@[i]).name@ == edge_char_name(
                character_edges(media.characters)[i],
            )
            &&& r.characters@[i].voice_actor.deep_view() == edge_voice(
                character_edges(media.characters)[i],
            )
            &&& r.characters@[i].role.deep_view() == character_edges(
                media.characters,
            )[i].role.deep_view()
        },
        r.staff@.len() == 0,
        r.episodes_list@.len() == 0,
        r.is_finished == anilist_finished(media.status),
        r.total_seasons is None,
        r.current_season is None,
        r.runtime is None,
        r.content_rating is None,
{
    let AniListMedia {
        id,
        title,
        cover_image,
        average_score,
        episodes,
        status,
        genres,
        description,
        studios,
        characters,
    } = media;

    let title_u = match title {
        Some(t) => UniversalTitle { romaji: t.romaji, english: t.english, native: t.native },
        None => UniversalTitle { romaji: None, english: None, native: None },
    };
    let cover_u = match cover_image {
        Some(c) => UniversalCoverImage { large: c.large, extra_large: c.extra_large },
        None => UniversalCoverImage { large: None, extra_large: None },
    };

    let empty_names: Vec<Option<String>> = Vec::new();
    let genres_v = match &genres {
        Some(g) => crate::tmdb::collect_names(g),
        None => crate::tmdb::collect_names(&empty_names),
    };

    let studios_v = {
        let empty_nodes: Vec<AniListStudioNode> = Vec::new();
        let nodes: &Vec<AniListStudioNode> = match &studios {
            Some(st) => match &st.nodes {
                Some(n) => n,
                None => &empty_nodes,
            },
            None => &empty_nodes,
        };
        collect_studio_names(nodes)
    };

    let characters_v = {
        let empty_edges: Vec<AniListCharacterEdge> = Vec::new();
        let edges: &Vec<AniListCharacterEdge> = match &characters {
            Some(ch) => match &ch.edges {
                Some(e) => e,
                None => &empty_edges,
            },
            None => &empty_edges,
        };
        edges_to_characters(edges)
    };

    let is_finished = match &status {
        Some(s) => {
            let sv = str_to_chars(s.as_str());
            crate::text::chars_eq_str(&sv, "FINISHED") || crate::text::chars_eq_str(
                &sv,
                "CANCELLED",
            )
        },
        None => false,
    };

    UnifiedMetadata {
        id: i64_to_string(id),
        title: title_u,
        cover_image: cover_u,
        average_score,
        episodes,
        genres: genres_v,
        description,
        studios: studios_v,
        characters: characters_v,
        staff: Vec::new(),
        episodes_list: Vec::new(),
        is_finished,
        total_seasons: None,
        current_season: None,
        runtime: None,
        content_rating: None,
    }
}

/// Keeps the studio names that are present.
fn collect_studio_names(nodes: &Vec<AniListStudioNode>) -> (r: Vec<String>)
    ensures
        r.deep_view() == kept_studio_names(nodes@),
{
    let n = nodes.len();
    let mut r: Vec<String> = Vec::new();
    let mut i: usize = 0;
    proof {
        assert(nodes@.skip(0) =~= nodes@);
        assert(r.deep_view() + kept_studio_names(nodes@) =~= kept_studio_names(nodes@));
    }
    while i < n
        invariant
            i <= n,
            n == nodes@.len(),
            kept_studio_names(nodes@) == r.deep_view() + kept_studio_names(nodes@.skip(i as int)),
        decreases n - i,
    {
        let ghost rest = nodes@.skip(i as int);
        let ghost before = r.deep_view();
        proof {
            assert(rest[0] == nodes@[i as int]);
            assert(rest.skip(1) =~= nodes@.skip(i + 1));
        }
        match &nodes[i].name {
            Some(s) => {
                r.push(s.clone());
                proof {
                    assert(r.deep_view() =~~= before.push(nodes@[i as int].name->Some_0@));
                    assert(before + (seq![nodes@[i as int].name->Some_0@] + kept_studio_names(
                        nodes@.skip(i + 1),
                    )) =~= before.push(nodes@[i as int].name->Some_0@) + kept_studio_names(
                        nodes@.skip(i + 1),
                    ));
                }
            },
            None => {},
        }
        i += 1;
    }
    proof {
        assert(nodes@.skip(n as int) =~= Seq::<AniListStudioNode>::empty());
        assert(r.deep_view() + kept_studio_names(nodes@.skip(n as int)) =~= r.deep_view());
    }
    r
}

/// Maps character edges onto unified characters, one per edge, keeping at
/// most the first voice actor of each.
fn edges_to_characters(edges: &Vec<AniListCharacterEdge>) -> (r: Vec<UniversalCharacter>)
    ensures
        r@.len() == edges@.len(),
        forall|i: int| 0 <= i < r@.len() ==> {
            &&& (#[trigger] r@[i]).name@ == edge_char_name(edges@[i])
            &&& r@[i].voice_actor.deep_view() == edge_voice(edges@[i])
            &&& r@[i].role.deep_view() == edges@[i].role.deep_view()
        },
{
    let n = edges.len();
    let mut r: Vec<UniversalCharacter> = Vec::new();
    let mut i: usize = 0;
    while i < n
        invariant
            i <= n,
            n == edges@.len(),
            r@.len() == i,
            forall|j: int| 0 <= j < i ==> {
                &&& (#[trigger] r@[j]).name@ == edge_char_name(edges@[j])
                &&& r@[j].voice_actor.deep_view() == edge_voice(edges@[j])
                &&& r@[j].role.deep_view() == edges@[j].role.deep_view()
            },
        decreases n - i,
    {
        let name: String = match &edges[i].node {
            Some(nd) => match &nd.name {
                Some(nm) => unwrap_or_empty(clone_opt_string(&nm.full)),
                None => String::new(),
            },
            None => String::new(),
        };
        let voice_actor: Option<String> = match &edges[i].voice_actors {
            Some(v) => if v.len() > 0 {
                match &v[0].name {
                    Some(nm) => clone_opt_string(&nm.full),
                    None => None,
                }
            } else {
                None
            },
            None => None,
        };
        let role = clone_opt_string(&edges[i].role);
        r.push(UniversalCharacter { name, voice_actor, role });
        i += 1;
    }
    r
}

} // verus!
