use baglama2::month_views::MonthViews;
use baglama2::records::{File, Page};
use baglama2::server_db::{case_when_update_sql, create_files_sql, create_pages_sql,
    ensure_table_exists_sql, files_select_sql, finalize_status_sql, finalize_totals_sql,
    insert_file_pages_rows, insert_file_pages_sql, match_existing_files, match_existing_pages,
    merge_view_results, pages_select_sql, prepare_pageview_requests, start_missing_groups_sql,
    table_name, PageFile, PageIdRow, PageviewsResult, ViewDataRow};
use baglama2::year_month::YearMonth;

#[test]
fn test_table_name() {
    let ym = YearMonth::new(2022, 10).unwrap();
    assert_eq!(table_name(&ym), "viewdata_2022_10");
    let ym = YearMonth::new(2023, 4).unwrap();
    assert_eq!(table_name(&ym), "viewdata_2023_04");
}

#[test]
fn test_month_views_table() {
    let ym = YearMonth::new(2020, 2).unwrap();
    let mv = MonthViews::new(ym);
    assert!(mv.needs_creation());
    assert!(mv.create_table_sql().starts_with("CREATE TABLE IF NOT EXISTS month_views_2020_02 ("));
}

#[test]
fn test_month_table_statements() {
    let ym = YearMonth::new(2022, 10).unwrap();
    let sql = ensure_table_exists_sql(&ym);
    assert!(sql.starts_with("CREATE TABLE IF NOT EXISTS `viewdata_2022_10`"));
    assert!(sql.contains("UNIQUE KEY `viewdata_2022_10_idx1` (`group_status_id`,`files_id`,`pages_id`)"));
    let sql = start_missing_groups_sql(&ym);
    assert!(sql.contains("SELECT id,2022,10,'STARTED','mysql2' FROM groups"));
}

#[test]
fn test_next_started_group() {
    let ym = YearMonth::new(2022, 10).unwrap();
    assert_eq!(
        baglama2::server_db::next_started_group_sql(&ym),
        "SELECT id,group_id FROM `group_status` WHERE `year`=2022 AND `month`=10 AND `status`='STARTED' ORDER BY rand() LIMIT 1"
    );
    assert_eq!(baglama2::records::Page::sql_fields(), "id,site,title,namespace_id");
}

#[test]
fn test_finalize_statements() {
    let ym = YearMonth::new(2022, 10).unwrap();
    let first = finalize_status_sql(&ym);
    assert!(first.contains("SET `status`='VIEW DATA COMPLETE'"));
    assert!(first.contains("AND page_views IS NULL)"));
    let second = finalize_totals_sql(&ym);
    assert!(second.contains("COALESCE(sum(page_views),0)"));
    assert!(second.contains("total_views IS NULL"));
}

#[test]
fn test_prepare_pageview_requests() {
    let rows = vec![
        ViewDataRow {
            pages_id: 1,
            server: "en.wikipedia.org".to_string(),
            title: "Eliza Maria Gordon-Cumming".to_string(),
        },
        ViewDataRow { pages_id: 2, server: "en.wikipedia.org".to_string(), title: String::new() },
        ViewDataRow { pages_id: 3, server: "nodomain".to_string(), title: "Kept".to_string() },
    ];
    let reqs = prepare_pageview_requests(&rows);
    assert_eq!(reqs.len(), 1, "empty titles and servers without .org are dropped");
    assert_eq!(reqs[0].project, "en.wikipedia");
    assert_eq!(reqs[0].title, "Eliza_Maria_Gordon-Cumming");
    assert_eq!(reqs[0].pages_id, 1);
}

#[test]
fn test_merge_view_results() {
    let rows = vec![
        ViewDataRow { pages_id: 1, server: "en.wikipedia.org".to_string(), title: "A".to_string() },
        ViewDataRow { pages_id: 2, server: "en.wikipedia.org".to_string(), title: "B".to_string() },
    ];
    let reqs = prepare_pageview_requests(&rows);
    let results = vec![PageviewsResult {
        project: "en.wikipedia".to_string(),
        article: "A".to_string(),
        views: 42,
    }];
    let merged = merge_view_results(&reqs, &results);
    assert_eq!(merged, vec![(1, 42), (2, 0)], "an unanswered page counts zero");
}

#[test]
fn test_case_when_update() {
    let pairs = vec![(1usize, 42u64), (2usize, 0u64)];
    assert_eq!(
        case_when_update_sql("viewdata_2022_10", &pairs),
        "UPDATE viewdata_2022_10 SET page_views = CASE pages_id WHEN 1 THEN 42 WHEN 2 THEN 0 ELSE page_views END WHERE pages_id IN (1,2)"
    );
}

#[test]
fn test_match_existing_files() {
    let mut pfs = vec![
        PageFile {
            page: Page::new(158, "Alpha".to_string(), 0),
            file: File::new_no_id("A.jpg"),
        },
        PageFile {
            page: Page::new(158, "Beta".to_string(), 0),
            file: File::new_no_id("B.jpg"),
        },
    ];
    let map = vec![("A.jpg".to_string(), 77usize)];
    let missing = match_existing_files(&mut pfs, &map);
    assert_eq!(pfs[0].file.id, Some(77));
    assert_eq!(pfs[1].file.id, None);
    assert_eq!(missing, vec!["B.jpg".to_string()]);
}

#[test]
fn test_match_existing_pages() {
    let mut pfs = vec![
        PageFile {
            page: Page::new(158, "Alpha".to_string(), 0),
            file: File::new(Some(77), "A.jpg".to_string()),
        },
        PageFile {
            page: Page::new(158, "Beta".to_string(), 0),
            file: File::new(Some(78), "B.jpg".to_string()),
        },
        PageFile {
            page: Page::new(158, "Beta".to_string(), 0),
            file: File::new(Some(79), "C.jpg".to_string()),
        },
    ];
    let map = vec![PageIdRow {
        site_id: 158,
        title: "Alpha".to_string(),
        namespace_id: 0,
        id: 5,
    }];
    let missing = match_existing_pages(&mut pfs, &map);
    assert_eq!(pfs[0].page.id, Some(5));
    assert_eq!(pfs[1].page.id, None);
    assert_eq!(missing.len(), 1, "a missing natural key is collected once");
    assert_eq!(missing[0].title, "Beta");
}

#[test]
fn test_staging_statements() {
    assert_eq!(
        create_files_sql(2),
        "INSERT IGNORE INTO `files` (`name`) VALUES (?),(?)"
    );
    assert_eq!(
        files_select_sql(2),
        "SELECT `id`,`name` FROM `files` WHERE `name` IN (?,?)"
    );
    assert_eq!(
        create_pages_sql(2),
        "INSERT IGNORE INTO `pages` (`site`,`title`,`namespace_id`) VALUES (?,?,?),(?,?,?)"
    );
    assert_eq!(
        pages_select_sql(2),
        "SELECT `id`,`site`,`title`,`namespace_id` FROM `pages` WHERE (site=? AND title=? AND namespace_id=?) OR (site=? AND title=? AND namespace_id=?)"
    );
    let ym = YearMonth::new(2022, 10).unwrap();
    assert_eq!(
        insert_file_pages_sql(&ym, 2),
        "INSERT IGNORE INTO viewdata_2022_10 (group_status_id, files_id, pages_id) VALUES (?,?,?),(?,?,?)"
    );
}

#[test]
fn test_insert_file_pages_rows() {
    let pfs = vec![
        PageFile {
            page: Page { id: Some(5), site_id: 158, title: "Alpha".to_string(), namespace_id: 0 },
            file: File::new(Some(77), "A.jpg".to_string()),
        },
        PageFile {
            page: Page::new(158, "Beta".to_string(), 0),
            file: File::new_no_id("B.jpg"),
        },
    ];
    assert!(!pfs[1].is_valid());
    let rows = insert_file_pages_rows(&pfs, 29);
    assert_eq!(rows, vec![(29, 77, 5)], "a pair still missing a key is skipped");
}
