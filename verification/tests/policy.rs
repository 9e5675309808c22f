use housou::model::{SiteMetadata, SiteType};
use housou::policy::{cache_ttl, config_years, upstream_cache_ttl, ResponseKind};
use housou::sites::{merge_site_lists, tag_site_entries, SiteEntry};

#[test]
fn test_cache_ttl_policy() {
    assert_eq!(cache_ttl(ResponseKind::Config), 60);
    assert_eq!(cache_ttl(ResponseKind::Listing), 86400);
    // Finished records keep for thirty days, ongoing for seven.
    assert_eq!(
        cache_ttl(ResponseKind::Metadata {
            is_finished: true,
            via_jikan: false
        }),
        2592000
    );
    assert_eq!(
        cache_ttl(ResponseKind::Metadata {
            is_finished: false,
            via_jikan: false
        }),
        604800
    );
    // The Jikan path gets its own shorter override, finished or not.
    assert_eq!(
        cache_ttl(ResponseKind::Metadata {
            is_finished: true,
            via_jikan: true
        }),
        21600
    );
}

#[test]
fn test_upstream_cache_ttl() {
    assert_eq!(upstream_cache_ttl(true), 21600);
    assert_eq!(upstream_cache_ttl(false), 3600);
}

#[test]
fn test_config_years_range() {
    let years = config_years(2024);
    assert_eq!(years.len(), (2024 + 2 - 1943) as usize);
    assert_eq!(years[0], 2025);
    assert_eq!(years[years.len() - 1], 1943);
    // Strictly descending by one.
    for w in years.windows(2) {
        assert_eq!(w[0] - 1, w[1]);
    }
}

fn site(key: &str, title: &str) -> SiteEntry {
    SiteEntry {
        key: key.to_string(),
        meta: SiteMetadata {
            title: title.to_string(),
            url_template: format!("https://{}.example/{{id}}", key),
            regions: None,
            type_field: None,
        },
    }
}

#[test]
fn test_tag_and_merge_site_entries() {
    let info = tag_site_entries(vec![site("bangumi", "Bangumi")], SiteType::Info);
    let onair = tag_site_entries(vec![site("netflix", "Netflix")], SiteType::Onair);
    let resource = tag_site_entries(vec![site("dmhy", "DMHY")], SiteType::Resource);

    assert_eq!(info[0].meta.type_field, Some(SiteType::Info));
    assert_eq!(onair[0].meta.type_field, Some(SiteType::Onair));
    assert_eq!(resource[0].meta.type_field, Some(SiteType::Resource));

    let merged = merge_site_lists(info, onair, resource);
    let keys: Vec<&str> = merged.iter().map(|e| e.key.as_str()).collect();
    assert_eq!(keys, vec!["bangumi", "netflix", "dmhy"]);
}

#[test]
fn test_merge_site_lists_later_file_wins() {
    // A platform listed in two files keeps only the later file's entry,
    // the way successive map inserts would resolve the duplicate key.
    let info = tag_site_entries(
        vec![site("bangumi", "Bangumi"), site("netflix", "Netflix Info")],
        SiteType::Info,
    );
    let onair = tag_site_entries(vec![site("netflix", "Netflix")], SiteType::Onair);
    let merged = merge_site_lists(info, onair, vec![]);
    assert_eq!(merged.len(), 2);
    assert_eq!(merged[0].key, "bangumi");
    assert_eq!(merged[1].key, "netflix");
    assert_eq!(merged[1].meta.title, "Netflix");
    assert_eq!(merged[1].meta.type_field, Some(SiteType::Onair));
}
