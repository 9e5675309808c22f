//! The seasonal listing logic: the past-versus-future classification that
//! selects the archival or the live source, the per-season month plan, the
//! live-source keyword plan, and the assembly of fan-out results in
//! logical key order regardless of completion order.

use vstd::prelude::*;
use vstd::pervasive::VecAdditionalExecFns;
use crate::MetaError;
use crate::model::Item;
use crate::text::str_to_chars;
use crate::title::lower_ascii;

verus! {

/// Ordinal of a calendar season name: Winter 1 through Autumn 4, and 0
/// for anything else.
pub open spec fn season_ordinal(s: Seq<char>) -> int {
    if s == "Winter"@ {
        1
    } else if s == "Spring"@ {
        2
    } else if s == "Summer"@ {
        3
    } else if s == "Autumn"@ {
        4
    } else {
        0
    }
}

pub fn season_to_num(season: &str) -> (r: i32)
    ensures
        r == season_ordinal(season@),
{
    let v = str_to_chars(season);
    if crate::text::chars_eq_str(&v, "Winter") {
        1
    } else if crate::text::chars_eq_str(&v, "Spring") {
        2
    } else if crate::text::chars_eq_str(&v, "Summer") {
        3
    } else if crate::text::chars_eq_str(&v, "Autumn") {
        4
    } else {
        0
    }
}

/// The season a month falls in; out-of-range months default to Winter.
pub open spec fn month_season(m: i32) -> Seq<char> {
    if 1 <= m <= 3 {
        "Winter"@
    } else if 4 <= m <= 6 {
        "Spring"@
    } else if 7 <= m <= 9 {
        "Summer"@
    } else if 10 <= m <= 12 {
        "Autumn"@
    } else {
        "Winter"@
    }
}

pub fn season_for_month(month: i32) -> (r: &'static str)
    ensures
        r@ == month_season(month),
{
    if 1 <= month && month <= 3 {
        "Winter"
    } else if 4 <= month && month <= 6 {
        "Spring"
    } else if 7 <= month && month <= 9 {
        "Summer"
    } else if 10 <= month && month <= 12 {
        "Autumn"
    } else {
        "Winter"
    }
}

/// Whether a request is for the future: a later year, or the current year
/// with a specific season ordinally after the current one. The current
/// year with no season, or with exactly the current season, is not
/// future.
pub open spec fn is_future_spec(
    year: i32,
    season: Option<Seq<char>>,
    current_year: i32,
    current_season: Seq<char>,
) -> bool {
    if year > current_year {
        true
    } else if year == current_year {
        match season {
            Some(s) => season_ordinal(s) > season_ordinal(current_season),
            None => false,
        }
    } else {
        false
    }
}

pub fn is_future_request(
    year: i32,
    season: Option<&str>,
    current_year: i32,
    current_season: &str,
) -> (r: bool)
    ensures
        r == is_future_spec(year, season.deep_view(), current_year, current_season@),
{
    if year > current_year {
        true
    } else if year == current_year {
        match season {
            Some(s) => season_to_num(s) > season_to_num(current_season),
            None => false,
        }
    } else {
        false
    }
}

/// The months the archival source is asked for: the season's three months,
/// or all twelve when no (known) season is requested.
pub open spec fn month_plan(season: Option<Seq<char>>) -> Seq<i32> {
    match season {
        Some(s) => if s == "Winter"@ {
            seq![1i32, 2i32, 3i32]
        } else if s == "Spring"@ {
            seq![4i32, 5i32, 6i32]
        } else if s == "Summer"@ {
            seq![7i32, 8i32, 9i32]
        } else if s == "Autumn"@ {
            seq![10i32, 11i32, 12i32]
        } else {
            all_months()
        },
        None => all_months(),
    }
}

pub open spec fn all_months() -> Seq<i32> {
    seq![1i32, 2i32, 3i32, 4i32, 5i32, 6i32, 7i32, 8i32, 9i32, 10i32, 11i32, 12i32]
}

pub fn months_for_season(season: Option<&str>) -> (r: Vec<i32>)
    ensures
        r@ == month_plan(season.deep_view()),
{
    match season {
        Some(s) => {
            let v = str_to_chars(s);
            let mut out: Vec<i32> = Vec::new();
            if crate::text::chars_eq_str(&v, "Winter") {
                out.push(1);
                out.push(2);
                out.push(3);
                assert(out@ =~= seq![1i32, 2i32, 3i32]);
            } else if crate::text::chars_eq_str(&v, "Spring") {
                out.push(4);
                out.push(5);
                out.push(6);
                assert(out@ =~= seq![4i32, 5i32, 6i32]);
            } else if crate::text::chars_eq_str(&v, "Summer") {
                out.push(7);
                out.push(8);
                out.push(9);
                assert(out@ =~= seq![7i32, 8i32, 9i32]);
            } else if crate::text::chars_eq_str(&v, "Autumn") {
                out.push(10);
                out.push(11);
                out.push(12);
                assert(out@ =~= seq![10i32, 11i32, 12i32]);
            } else {
                out = push_all_months();
            }
            out
        },
        None => push_all_months(),
    }
}

fn push_all_months() -> (r: Vec<i32>)
    ensures
        r@ == all_months(),
{
    let mut out: Vec<i32> = Vec::new();
    let mut m: i32 = 1;
    while m <= 12
        invariant
            1 <= m <= 13,
            out@ == all_months().take(m - 1),
        decreases 13 - m,
    {
        out.push(m);
        assert(out@ =~= all_months().take(m as int));
        m += 1;
    }
    assert(out@ =~= all_months());
    out
}

/// The live-source keyword for one season name: the calendar names fold
/// to lower case and Autumn maps to the source's "fall".
pub open spec fn season_keyword(s: Seq<char>) -> Seq<char> {
    if s == "Autumn"@ {
        "fall"@
    } else {
        s.map_values(|c: char| lower_ascii(c))
    }
}

/// The live-source keywords fetched: the one requested season's keyword,
/// or all four in calendar order (winter, spring, summer, fall).
pub open spec fn keyword_plan(season: Option<Seq<char>>) -> Seq<Seq<char>> {
    match season {
        Some(s) => seq![season_keyword(s)],
        None => seq!["winter"@, "spring"@, "summer"@, "fall"@],
    }
}

pub fn season_keywords(season: Option<&str>) -> (r: Vec<String>)
    ensures
        r.deep_view() == keyword_plan(season.deep_view()),
{
    match season {
        Some(s) => {
            let v = str_to_chars(s);
            let mut out: Vec<String> = Vec::new();
            if crate::text::chars_eq_str(&v, "Autumn") {
                out.push("fall".to_owned());
            } else {
                let n = v.len();
                let mut low: Vec<char> = Vec::new();
                let mut i: usize = 0;
                while i < n
                    invariant
                        i <= n,
                        n == v@.len(),
                        low@ == v@.take(i as int).map_values(|c: char| lower_ascii(c)),
                    decreases n - i,
                {
                    let c = v[i];
                    let u = c as u32;
                    let lc = if 65 <= u && u <= 90 {
                        ((u + 32) as u8) as char
                    } else {
                        c
                    };
                    low.push(lc);
                    assert(low@ =~= v@.take(i + 1).map_values(|c: char| lower_ascii(c)));
                    i += 1;
                }
                assert(v@.take(n as int) =~= v@);
                out.push(crate::text::chars_to_string(&low));
            }
            proof {
                assert(out.deep_view() =~= keyword_plan(season.deep_view()));
            }
            out
        },
        None => {
            let mut out: Vec<String> = Vec::new();
            out.push("winter".to_owned());
            out.push("spring".to_owned());
            out.push("summer".to_owned());
            out.push("fall".to_owned());
            proof {
                assert(out.deep_view() =~= keyword_plan(season.deep_view()));
            }
            out
        },
    }
}

/// Outcome of one sub-fetch of a fan-out: a payload, a tolerated upstream
/// miss (404), or a genuine failure.
#[derive(Debug, Clone, PartialEq)]
pub enum FetchOutcome {
    Found(Vec<Item>),
    Missing,
    Failed,
}

/// One sub-fetch result, tagged with its logical key (month number 1-12,
/// or season calendar ordinal 1-4).
#[derive(Debug, Clone, PartialEq)]
pub struct KeyedFetch {
    pub key: i32,
    pub outcome: FetchOutcome,
}

pub open spec fn found_items(o: FetchOutcome) -> Seq<Item> {
    match o {
        FetchOutcome::Found(v) => v@,
        _ => Seq::empty(),
    }
}

/// The items contributed by the fetches with key `k`, in list order; a
/// missing sub-fetch contributes nothing.
pub open spec fn items_of(fs: Seq<KeyedFetch>, k: i32) -> Seq<Item>
    decreases fs.len(),
{
    if fs.len() == 0 {
        Seq::empty()
    } else {
        (if fs[0].key == k {
            found_items(fs[0].outcome)
        } else {
            Seq::empty()
        }) + items_of(fs.skip(1), k)
    }
}

/// All items in ascending key order, keys `k` through 12.
pub open spec fn ordered_items(fs: Seq<KeyedFetch>, k: int) -> Seq<Item>
    decreases 13 - k,
{
    if k > 12 {
        Seq::empty()
    } else {
        items_of(fs, k as i32) + ordered_items(fs, k + 1)
    }
}

pub open spec fn has_failure(fs: Seq<KeyedFetch>) -> bool {
    exists|i: int| 0 <= i < fs.len() && (#[trigger] fs[i]).outcome is Failed
}

/// Joins the results of a fan-out: any failed sub-fetch fails the whole
/// call; otherwise the items are concatenated in ascending key order,
/// whatever order the results arrived in, with missing sub-fetches
/// contributing nothing.
pub fn assemble_keyed_items(fetches: Vec<KeyedFetch>) -> (r: Result<Vec<Item>, MetaError>)
    ensures
        has_failure(fetches@) ==> r == Err::<Vec<Item>, MetaError>(
            MetaError::UpstreamProtocolError,
        ),
        !has_failure(fetches@) ==> (r matches Ok(v) && v@ == ordered_items(fetches@, 1)),
{
    let ghost orig = fetches@;
    let n = fetches.len();
    let mut i: usize = 0;
    while i < n
        invariant
            i <= n,
            n == orig.len(),
            fetches@ == orig,
            forall|j: int| 0 <= j < i ==> !((#[trigger] orig[j]).outcome is Failed),
        decreases n - i,
    {
        match &fetches[i].outcome {
            FetchOutcome::Failed => {
                assert(has_failure(orig)) by {
                    assert(orig[i as int].outcome is Failed);
                }
                return Err(MetaError::UpstreamProtocolError);
            },
            _ => {},
        }
        i += 1;
    }
    assert(!has_failure(orig));

    let mut fetches = fetches;
    let mut out: Vec<Item> = Vec::new();
    let mut k: i32 = 1;
    proof {
        assert(out@ + ordered_items(orig, 1) =~= ordered_items(orig, 1));
    }
    while k <= 12
        invariant
            1 <= k <= 13,
            fetches@.len() == orig.len(),
            forall|j: int| 0 <= j < orig.len() ==> (#[trigger] fetches@[j]).key == orig[j].key,
            forall|j: int| 0 <= j < orig.len() ==> (orig[j].key >= k ==> (
            #[trigger] fetches@[j]).outcome == orig[j].outcome),
            forall|j: int| 0 <= j < orig.len() ==> !((#[trigger] orig[j]).outcome is Failed),
            ordered_items(orig, 1) == out@ + ordered_items(orig, k as int),
        decreases 13 - k,
    {
        let m = fetches.len();
        let mut j: usize = 0;
        proof {
            assert(orig.skip(0) =~= orig);
            assert(ordered_items(orig, k as int) == items_of(orig, k) + ordered_items(
                orig,
                k + 1,
            ));
        }
        while j < m
            invariant
                j <= m,
                m == orig.len(),
                1 <= k <= 12,
                fetches@.len() == orig.len(),
                forall|t: int| 0 <= t < orig.len() ==> (#[trigger] fetches@[t]).key == orig[t].key,
                forall|t: int| 0 <= t < orig.len() ==> ((orig[t].key > k || (orig[t].key == k && t
                    >= j)) ==> (#[trigger] fetches@[t]).outcome == orig[t].outcome),
                forall|t: int| 0 <= t < orig.len() ==> !((#[trigger] orig[t]).outcome is Failed),
                ordered_items(orig, 1) == out@ + items_of(orig.skip(j as int), k) + ordered_items(
                    orig,
                    k + 1,
                ),
            decreases m - j,
        {
            let ghost rest = orig.skip(j as int);
            proof {
                assert(rest[0] == orig[j as int]);
                assert(rest.skip(1) =~= orig.skip(j + 1));
            }
            if fetches[j].key == k {
                let mut slot = KeyedFetch { key: k, outcome: FetchOutcome::Missing };
                fetches.set_and_swap(j, &mut slot);
                assert(slot.outcome == orig[j as int].outcome);
                match slot.outcome {
                    FetchOutcome::Found(mut items) => {
                        let ghost pending = items@;
                        proof {
                            assert(out@ + (pending + (items_of(orig.skip(j + 1), k)
                                + ordered_items(orig, k + 1))) =~= out@ + pending + items_of(
                                orig.skip(j + 1),
                                k,
                            ) + ordered_items(orig, k + 1));
                        }
                        while items.len() > 0
                            invariant
                                ordered_items(orig, 1) == out@ + items@ + items_of(
                                    orig.skip(j + 1),
                                    k,
                                ) + ordered_items(orig, k + 1),
                            decreases items.len(),
                        {
                            let ghost before_out = out@;
                            let ghost before_items = items@;
                            let it = items.remove(0);
                            out.push(it);
                            proof {
                                assert(before_items.remove(0) =~= before_items.skip(1));
                                assert(before_out.push(before_items[0]) + before_items.skip(1)
                                    =~= before_out + before_items);
                                assert(out@ + items@ =~= before_out + before_items);
                            }
                        }
                        proof {
                            assert(out@ + items@ =~= out@);
                        }
                    },
                    FetchOutcome::Missing => {
                        proof {
                            assert(found_items(orig[j as int].outcome) =~= Seq::<Item>::empty());
                            assert(out@ + (Seq::<Item>::empty() + items_of(orig.skip(j + 1), k))
                                =~= out@ + items_of(orig.skip(j + 1), k));
                        }
                    },
                    FetchOutcome::Failed => {
                        proof {
                            assert(false);
                        }
                    },
                }
            } else {
                proof {
                    assert(items_of(rest, k) == Seq::<Item>::empty() + items_of(rest.skip(1), k));
                    assert(Seq::<Item>::empty() + items_of(rest.skip(1), k) =~= items_of(
                        rest.skip(1),
                        k,
                    ));
                }
            }
            j += 1;
        }
        proof {
            assert(orig.skip(m as int) =~= Seq::<KeyedFetch>::empty());
            assert(out@ + items_of(orig.skip(m as int), k) =~= out@);
        }
        k += 1;
    }
    proof {
        assert(out@ + ordered_items(orig, 13) =~= out@);
    }
    Ok(out)
}

} // verus!
