//! The site-registry assembly: tagging each fetched registry entry with
//! the kind of file it came from, and merging the per-kind lists into one
//! registry the way successive map inserts would, a later file overriding
//! an earlier entry with the same platform key.

use vstd::prelude::*;
use crate::model::{SiteMetadata, SiteType};

verus! {

/// One registry entry, keyed by its platform name.
#[derive(Default, Debug, Clone, PartialEq)]
pub struct SiteEntry {
    pub key: String,
    pub meta: SiteMetadata,
}

/// Tags every entry with the registry kind of the file it came from,
/// leaving everything else unchanged.
pub fn tag_site_entries(entries: Vec<SiteEntry>, stype: SiteType) -> (r: Vec<SiteEntry>)
    ensures
        r@.len() == entries@.len(),
        forall|i: int| 0 <= i < r@.len() ==> {
            &&& (#[trigger] r@[i]).key == entries@[i].key
            &&& r@[i].meta.title == entries@[i].meta.title
            &&& r@[i].meta.url_template == entries@[i].meta.url_template
            &&& r@[i].meta.regions == entries@[i].meta.regions
            &&& r@[i].meta.type_field == Some(stype)
        },
{
    let ghost orig = entries@;
    let mut entries = entries;
    let mut r: Vec<SiteEntry> = Vec::new();
    proof {
        assert(orig.take(0) =~= Seq::<SiteEntry>::empty());
    }
    while entries.len() > 0
        invariant
            r@.len() + entries@.len() == orig.len(),
            entries@ == orig.skip(r@.len() as int),
            forall|i: int| 0 <= i < r@.len() ==> {
                &&& (#[trigger] r@[i]).key == orig[i].key
                &&& r@[i].meta.title == orig[i].meta.title
                &&& r@[i].meta.url_template == orig[i].meta.url_template
                &&& r@[i].meta.regions == orig[i].meta.regions
                &&& r@[i].meta.type_field == Some(stype)
            },
        decreases entries.len(),
    {
        let ghost before = entries@;
        let e = entries.remove(0);
        proof {
            assert(e == before[0]);
            assert(before.remove(0) =~= before.skip(1));
            assert(before.skip(1) =~= orig.skip(r@.len() as int + 1));
        }
        let SiteEntry { key, meta } = e;
        let SiteMetadata { title, url_template, regions, type_field: _ } = meta;
        r.push(
            SiteEntry {
                key,
                meta: SiteMetadata { title, url_template, regions, type_field: Some(stype) },
            },
        );
    }
    proof {
        assert(r@.len() == orig.len());
    }
    r
}

pub open spec fn registry_has_key(es: Seq<SiteEntry>, k: Seq<char>) -> bool {
    exists|i: int| 0 <= i < es.len() && (#[trigger] es[i]).key@ == k
}

/// A keyed entry list read as successive map inserts: each key survives
/// once, with the value of its last occurrence, entries in the order
/// those surviving occurrences stand.
pub open spec fn union_last(es: Seq<SiteEntry>) -> Seq<SiteEntry>
    decreases es.len(),
{
    if es.len() == 0 {
        es
    } else if registry_has_key(es.skip(1), es[0].key@) {
        union_last(es.skip(1))
    } else {
        seq![es[0]] + union_last(es.skip(1))
    }
}

/// Whether some entry of `es` carries the key `k`.
fn registry_contains_key(es: &Vec<SiteEntry>, k: &String) -> (r: bool)
    ensures
        r == registry_has_key(es@, k@),
{
    let n = es.len();
    let mut i: usize = 0;
    while i < n
        invariant
            i <= n,
            n == es@.len(),
            forall|j: int| 0 <= j < i ==> (#[trigger] es@[j]).key@ != k@,
        decreases n - i,
    {
        if es[i].key == *k {
            assert(registry_has_key(es@, k@)) by {
                assert(es@[i as int].key@ == k@);
            }
            return true;
        }
        i += 1;
    }
    proof {
        if registry_has_key(es@, k@) {
            let w = choose|w: int| 0 <= w < es@.len() && es@[w].key@ == k@;
            assert(es@[w].key@ != k@);
        }
    }
    false
}

/// Joins the three per-kind registries into one, info entries first, then
/// on-air, then resource, and resolves duplicate platform keys the way a
/// map union would: the entry from the later file wins.
pub fn merge_site_lists(info: Vec<SiteEntry>, onair: Vec<SiteEntry>, resource: Vec<SiteEntry>) -> (r:
    Vec<SiteEntry>)
    ensures
        r@ == union_last(info@ + onair@ + resource@),
{
    let ghost gi = info@;
    let ghost go = onair@;
    let ghost gr = resource@;
    let ghost target = gi + go + gr;
    let mut all = info;
    let mut onair = onair;
    let mut resource = resource;
    while onair.len() > 0
        invariant
            all@ + onair@ == gi + go,
        decreases onair.len(),
    {
        let ghost br = all@;
        let ghost bo = onair@;
        let e = onair.remove(0);
        all.push(e);
        proof {
            assert(bo.remove(0) =~= bo.skip(1));
            assert(br.push(bo[0]) + bo.skip(1) =~= br + bo);
        }
    }
    proof {
        assert(all@ + onair@ =~= all@);
        assert(all@ == gi + go);
    }
    while resource.len() > 0
        invariant
            all@ + resource@ == (gi + go) + gr,
        decreases resource.len(),
    {
        let ghost br = all@;
        let ghost bo = resource@;
        let e = resource.remove(0);
        all.push(e);
        proof {
            assert(bo.remove(0) =~= bo.skip(1));
            assert(br.push(bo[0]) + bo.skip(1) =~= br + bo);
        }
    }
    proof {
        assert(all@ + resource@ =~= all@);
        assert((gi + go) + gr =~= target);
        assert(all@ == target);
    }

    let mut out: Vec<SiteEntry> = Vec::new();
    proof {
        assert(out@ + union_last(all@) =~= union_last(target));
    }
    while all.len() > 0
        invariant
            union_last(target) == out@ + union_last(all@),
        decreases all.len(),
    {
        let ghost before = all@;
        let ghost bout = out@;
        let e = all.remove(0);
        proof {
            assert(e == before[0]);
            assert(before.remove(0) =~= before.skip(1));
        }
        if registry_contains_key(&all, &e.key) {
            // A later file carries this key again; that entry wins.
            proof {
                assert(union_last(before) == union_last(before.skip(1)));
            }
        } else {
            out.push(e);
            proof {
                assert(union_last(before) == seq![before[0]] + union_last(before.skip(1)));
                assert(bout + (seq![e] + union_last(all@)) =~= bout.push(e) + union_last(all@));
            }
        }
    }
    proof {
        assert(out@ + union_last(all@) =~= out@);
    }
    out
}

} // verus!
