use baglama2::group_date::{add_views_batch_for_files, build_view_batch,
    classify_view_row, get_site_for_wiki, lookup_view_id, apply_namespace_prefix, NamespaceCache,
    RowClass};
use baglama2::records::{RowGroup, ViewIdSiteIdTitle};
use baglama2::group_id::GroupId;
use baglama2::records::GlobalImageLinks;
use baglama2::site::Site;
use baglama2::snapshot::Snapshot;
use baglama2::year_month::YearMonth;

fn enwiki_site() -> Site {
    Site::new(
        158,
        Some("en".to_string()),
        Some("en.wikipedia.org".to_string()),
        Some("enwiki".to_string()),
        Some("wikipedia".to_string()),
        Some("en".to_string()),
        Some("English Wikipedia".to_string()),
    )
}

fn dewiki_site() -> Site {
    Site::new(
        159,
        Some("de".to_string()),
        Some("de.wikipedia.org".to_string()),
        Some("dewiki".to_string()),
        Some("wikipedia".to_string()),
        Some("de".to_string()),
        Some("German Wikipedia".to_string()),
    )
}

fn gil(wiki: &str, page: usize, ns: i32, title: &str, file: &str) -> GlobalImageLinks {
    GlobalImageLinks {
        wiki: wiki.to_string(),
        page,
        page_namespace_id: ns,
        page_title: title.to_string(),
        to: file.to_string(),
    }
}

fn fresh_snapshot() -> Snapshot {
    let gid = GroupId::try_from(782).unwrap();
    let ym = YearMonth::new(2022, 10).unwrap();
    Snapshot::new(gid, ym, 1, vec![enwiki_site(), dewiki_site()])
}

// The snapshot carries the group's own row, so the published file holds
// the group's metadata alongside its views.
#[test]
fn test_seed_group_row() {
    let mut snap = fresh_snapshot();
    assert!(snap.group().is_none());
    let group = RowGroup::new(
        782,
        "Blue sky in Berlin".to_string(),
        3,
        "somebody".to_string(),
        0,
        1,
        0,
    );
    snap.seed_group(group);
    let seeded = snap.group().as_ref().expect("the group row is kept");
    assert_eq!(seeded.id(), 782);
    assert_eq!(seeded.category(), "Blue sky in Berlin");
    assert_eq!(seeded.depth(), 3);
}

#[test]
fn test_insert_files_batch() {
    let mut snap = fresh_snapshot();
    snap.delete_all_files();
    snap.insert_files_batch(&vec!["foo".to_string(), "bar".to_string()]);
    assert_eq!(snap.load_files_batch(0, 1), ["foo"]);
    assert_eq!(snap.load_files_batch(1, 1), ["bar"]);
    snap.delete_all_files();
    assert!(snap.load_files_batch(0, 10).is_empty());
}

#[test]
fn test_get_site_for_wiki() {
    let sites = vec![enwiki_site(), dewiki_site()];
    assert_eq!(get_site_for_wiki(&sites, "enwiki"), Some(158));
    assert_eq!(get_site_for_wiki(&sites, "dewiki"), Some(159));
    assert_eq!(get_site_for_wiki(&sites, "frwiki"), None);
}

// Every (file, page) pair discovered gets exactly one view row, even when
// the same page arrives twice.
#[test]
fn test_each_pair_gets_one_view_row() {
    let mut snap = fresh_snapshot();
    let gils = vec![
        gil("enwiki", 101, 0, "Alpha", "A.jpg"),
        gil("enwiki", 101, 0, "Alpha", "B.jpg"),
        gil("enwiki", 102, 0, "Beta", "A.jpg"),
        gil("unknownwiki", 103, 0, "Gamma", "A.jpg"),
    ];
    let ym = *snap.ym();
    let batch = build_view_batch(&gils, snap.load_sites(), &ym);
    assert_eq!(batch.cands.len(), 3, "the unknown wiki is skipped");
    snap.create_views_in_db(&batch.cands);
    let rows = snap.views();
    assert_eq!(rows.len(), 2, "the duplicate (site, title, ns, page) key is ignored");
    assert_eq!(rows[0].id, 1);
    assert_eq!(rows[0].title, "Alpha");
    assert_eq!(rows[0].done, 0);
    assert_eq!(rows[0].views, 0);
    assert_eq!(rows[1].id, 2);
    assert_eq!(rows[1].title, "Beta");
}

// Creating view placeholders then looking the same parts up is the
// identity on the (site, title) key set.
#[test]
fn test_create_then_lookup_roundtrip() {
    let mut snap = fresh_snapshot();
    let gils = vec![
        gil("enwiki", 101, 0, "Alpha", "A.jpg"),
        gil("dewiki", 201, 0, "Beta", "A.jpg"),
    ];
    let ym = *snap.ym();
    let batch = build_view_batch(&gils, snap.load_sites(), &ym);
    snap.create_views_in_db(&batch.cands);
    let found = snap.get_viewid_site_id_title(&batch.parts);
    let mut found_keys: Vec<(usize, String)> =
        found.iter().map(|f| (f.site_id, f.title.clone())).collect();
    let mut part_keys: Vec<(usize, String)> =
        batch.parts.iter().map(|p| (p.site_id, p.page_title.clone())).collect();
    found_keys.sort();
    found_keys.dedup();
    part_keys.sort();
    part_keys.dedup();
    assert_eq!(found_keys, part_keys);
}

// A full in-memory run where every page-view request failed (the endpoint
// answered 404 for every article, counted as zero) completes with
// total_views = 0 and every view row at done=1, views=0.
#[test]
fn test_all_requests_failing_yields_zero_total() {
    let mut snap = fresh_snapshot();
    snap.insert_files_batch(&vec!["A.jpg".to_string(), "B.jpg".to_string()]);
    let files = snap.load_files_batch(0, 10000);
    assert_eq!(files.len(), 2);

    let gils = vec![
        gil("enwiki", 101, 0, "Alpha", "A.jpg"),
        gil("enwiki", 102, 0, "Beta", "B.jpg"),
        gil("dewiki", 201, 0, "Gamma", "A.jpg"),
    ];
    let ym = *snap.ym();
    let batch = build_view_batch(&gils, snap.load_sites(), &ym);
    let g2v = add_views_batch_for_files(&mut snap, &batch.cands, &batch.parts);
    assert_eq!(snap.group2view().len(), 3);
    assert_eq!(g2v.values.len(), 3);
    assert_eq!(g2v.images, vec!["A.jpg", "B.jpg", "A.jpg"]);

    snap.reset_main_page_view_count();
    let todo = snap.get_view_counts_todo(3000);
    assert_eq!(todo.len(), 3);
    for vc in &todo {
        // The endpoint answers 404 for every article: each count is zero.
        snap.update_view_count(vc.view_id, 0);
    }
    snap.add_summary_statistics(snap.group_status_id());

    assert_eq!(snap.status(), "VIEW DATA COMPLETE");
    assert_eq!(snap.get_total_views(), 0);
    for row in snap.views() {
        assert_eq!(row.done, 1);
        assert_eq!(row.views, 0);
    }
}

// After the summary, total_views is the sum of the page views over all
// rows, and the per-site aggregates carry exact sums and page counts.
#[test]
fn test_summary_totals() {
    let mut snap = fresh_snapshot();
    let gils = vec![
        gil("enwiki", 101, 0, "Alpha", "A.jpg"),
        gil("enwiki", 102, 0, "Beta", "A.jpg"),
        gil("dewiki", 201, 0, "Gamma", "A.jpg"),
    ];
    let ym = *snap.ym();
    let batch = build_view_batch(&gils, snap.load_sites(), &ym);
    snap.create_views_in_db(&batch.cands);
    snap.update_view_count(1, 10);
    snap.update_view_count(2, 32);
    snap.update_view_count(3, 100);
    snap.add_summary_statistics(1);
    assert_eq!(snap.get_total_views(), 142);
    let stats = snap.gs2site();
    assert_eq!(stats.len(), 2);
    assert_eq!(stats[0].site_id, 158);
    assert_eq!(stats[0].pages, 2);
    assert_eq!(stats[0].views, 42);
    assert_eq!(stats[1].site_id, 159);
    assert_eq!(stats[1].pages, 1);
    assert_eq!(stats[1].views, 100);
}

#[test]
fn test_reset_main_page() {
    let mut snap = fresh_snapshot();
    let gils = vec![
        gil("enwiki", 15580374, 0, "Main_Page", "A.jpg"),
        gil("enwiki", 101, 0, "Alpha", "A.jpg"),
    ];
    let ym = *snap.ym();
    let batch = build_view_batch(&gils, snap.load_sites(), &ym);
    snap.create_views_in_db(&batch.cands);
    snap.update_view_count(1, 999999);
    snap.update_view_count(2, 7);
    snap.reset_main_page_view_count();
    assert_eq!(snap.views()[0].views, 0, "the Main Page row is zeroed");
    assert_eq!(snap.views()[1].views, 7, "other rows keep their counts");
}

#[test]
fn test_classify_view_row() {
    let vc = baglama2::records::ViewCount {
        view_id: 1,
        title: "Alpha".to_string(),
        namespace_id: 2,
        grok_code: None,
        server: Some("en.wikipedia.org".to_string()),
        done: 0,
        site_id: 158,
    };
    let site = enwiki_site();
    match classify_view_row(&vc, Some(&site)) {
        RowClass::Resolve(server, wiki) => {
            assert_eq!(server, "en.wikipedia.org");
            assert_eq!(wiki, "enwiki");
        }
        _ => panic!("expected a resolvable row"),
    }
    let mut no_server = vc;
    no_server.server = None;
    assert!(matches!(classify_view_row(&no_server, Some(&site)), RowClass::UnknownServer));
}

#[test]
fn test_prefix_with_namespace() {
    // The canonical prefix of namespace 2 on enwiki is "User".
    assert_eq!(apply_namespace_prefix("User", "Magnus Manske"), "User:Magnus Manske");
    assert_eq!(apply_namespace_prefix("", "Magnus Manske"), "Magnus Manske");
}

// A later lookup entry for the same (site, title) key replaces an earlier
// one, as a rebuilt map keeps the last writer.
#[test]
fn test_lookup_view_id_last_wins() {
    let results = vec![
        ViewIdSiteIdTitle::new(4, 158, "Alpha".to_string()),
        ViewIdSiteIdTitle::new(9, 158, "Alpha".to_string()),
    ];
    assert_eq!(lookup_view_id(&results, 158, "Alpha"), Some(9));
    assert_eq!(lookup_view_id(&results, 158, "Beta"), None);
}

#[test]
fn test_view_done_codes() {
    let mut snap = fresh_snapshot();
    let gils = vec![
        gil("enwiki", 101, 0, "Alpha", "A.jpg"),
        gil("dewiki", 201, 0, "Beta", "A.jpg"),
    ];
    let ym = *snap.ym();
    let batch = build_view_batch(&gils, snap.load_sites(), &ym);
    snap.create_views_in_db(&batch.cands);
    snap.view_done(1, 2);
    snap.view_done(2, 4);
    assert_eq!(snap.views()[0].done, 2);
    assert_eq!(snap.views()[0].views, 0);
    assert_eq!(snap.views()[1].done, 4);
    // Rows already marked with a failure code are no longer fetched.
    assert!(snap.get_view_counts_todo(3000).is_empty());
}

#[test]
fn test_load_files_batch_paging() {
    let mut snap = fresh_snapshot();
    let names: Vec<String> = (0..7).map(|i| format!("F{i}.jpg")).collect();
    snap.insert_files_batch(&names);
    assert_eq!(snap.load_files_batch(0, 3).len(), 3);
    assert_eq!(snap.load_files_batch(6, 3), ["F6.jpg"]);
    assert!(snap.load_files_batch(7, 3).is_empty());
    assert!(snap.load_files_batch(100, 3).is_empty());
}

#[test]
fn test_namespace_cache_first_writer_wins() {
    let mut cache = NamespaceCache::new();
    assert_eq!(cache.get("enwiki", 2), None);
    cache.insert_if_absent("enwiki", 2, Some("User".to_string()));
    assert_eq!(cache.get("enwiki", 2), Some(Some("User".to_string())));
    cache.insert_if_absent("enwiki", 2, Some("Benutzer".to_string()));
    assert_eq!(
        cache.get("enwiki", 2),
        Some(Some("User".to_string())),
        "a later writer does not replace the first"
    );
    cache.insert_if_absent("enwiki", 0, Some(String::new()));
    assert_eq!(cache.get("enwiki", 0), Some(Some(String::new())));
}
