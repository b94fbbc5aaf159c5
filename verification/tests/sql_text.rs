use baglama2::sql;
use baglama2::year_month::YearMonth;

#[test]
fn test_sql_placeholders() {
    assert_eq!(sql::sql_placeholders(50).len(), 99);
}

#[test]
fn test_sql_placeholders_content() {
    assert_eq!(sql::sql_placeholders(0), "");
    assert_eq!(sql::sql_placeholders(1), "?");
    assert_eq!(sql::sql_placeholders(3), "?,?,?");
}

#[test]
fn test_get_placeholders() {
    assert_eq!(sql::get_placeholders("(?),", 3).unwrap(), "(?),(?),(?)");
    assert_eq!(sql::get_placeholders("(?,?,?),", 2).unwrap(), "(?,?,?),(?,?,?)");
    assert!(sql::get_placeholders("(?),", 0).is_err());
}

#[test]
fn test_update_view_count() {
    assert_eq!(
        sql::update_view_count_sql(12345, 67890),
        "UPDATE `views` SET `done`=1,`views`=67890 WHERE `id`=12345"
    );
}

#[test]
fn test_view_done() {
    assert_eq!(
        sql::view_done_sql(12345, 1),
        "UPDATE `views` SET `done`=1,`views`=0 WHERE `id`=12345"
    );
}

#[test]
fn test_delete_all_files() {
    assert_eq!(
        sql::delete_all_files_sql(29),
        "DELETE FROM `files` WHERE `group_status_id`=29"
    );
}

#[test]
fn test_update_group_status() {
    assert_eq!(
        sql::update_group_status_sql(12345),
        "UPDATE group_status SET status='VIEW DATA COMPLETE', total_views=(SELECT sum(views) FROM gs2site WHERE `group_status_id`=12345) WHERE id=12345"
    );
}

#[test]
fn test_update_gs2site() {
    assert_eq!(
        sql::gs2site_delete_sql(123),
        "DELETE FROM `gs2site` WHERE `group_status_id`=123"
    );
    assert_eq!(
        sql::gs2site_insert_sql(123),
        "INSERT INTO `gs2site` (group_status_id,site_id,pages,views) SELECT 123,sites.id,COUNT(DISTINCT page_id),SUM(views) FROM `views`,`sites`,`group2view` WHERE views.site=sites.id AND view_id=views.id AND group_status_id=123 GROUP BY sites.id"
    );
}

#[test]
fn test_reset_main_page_view_count() {
    assert_eq!(
        sql::reset_main_page_sql(29),
        "UPDATE views SET views=0 WHERE title='Main_Page' AND views.id IN (SELECT `view_id` FROM `group2view` WHERE `group_status_id`=29 AND `view_id`=`views`.`id`)"
    );
    assert_eq!(
        sql::reset_main_page_sqlite_sql(),
        "UPDATE views SET views=0 WHERE title='Main_Page'"
    );
}

#[test]
fn test_insert_group2view() {
    let values = vec!["(1,2,?)".to_string()];
    assert_eq!(
        sql::insert_group2view_sql(&values),
        "INSERT OR IGNORE INTO `group2view` (group_status_id,view_id,image) VALUES (1,2,?)"
    );
}

#[test]
fn test_create_views_in_db() {
    let sql_values = vec!["(12,?,3,2021,0,7,12345,67890)".to_string()];
    assert_eq!(
        sql::create_views_in_db_sql(&sql_values),
        "INSERT OR IGNORE INTO `views` (site,title,month,year,done,namespace_id,page_id,views) VALUES (12,?,3,2021,0,7,12345,67890)"
    );
}

#[test]
fn test_view_sql_value() {
    assert_eq!(sql::view_sql_value(12, 3, 2021, 7, 12345), "(12,?,3,2021,0,7,12345,0)");
    assert_eq!(sql::group2view_value(1, 2), "(1,2,?)");
}

#[test]
fn test_insert_files_statements() {
    assert_eq!(
        sql::insert_files_batch_sql(29, 2),
        "INSERT IGNORE INTO `files` (`group_status_id`,`name`) VALUES (29,?),(29,?)"
    );
    assert_eq!(
        sql::insert_files_sqlite_sql(3),
        "INSERT INTO `files` (`filename`) VALUES (?),(?),(?)"
    );
}

#[test]
fn test_load_files_statements() {
    assert_eq!(
        sql::load_files_batch_sql(29, 10000, 20000),
        "SELECT `name` FROM `files` WHERE `group_status_id`=29 LIMIT 10000 OFFSET 20000"
    );
    assert_eq!(
        sql::load_files_sqlite_sql(10000, 0),
        "SELECT `filename` FROM `files` LIMIT 10000 OFFSET 0"
    );
}

#[test]
fn test_viewid_lookup_statements() {
    let parts = vec![
        sql::viewid_lookup_part_sqlite(158),
        sql::viewid_lookup_part_sqlite(165),
    ];
    assert_eq!(
        sql::viewid_lookup_sql(&parts),
        "SELECT id,site,title FROM `views` WHERE (`site`=158 AND `title`=?) OR (`site`=165 AND `title`=?)"
    );
    assert_eq!(
        sql::viewid_lookup_part(158, 5153256, 2014, 2),
        "(`site`=158 AND `page_id`=5153256 AND `year`=2014 AND `month`=2)"
    );
}

#[test]
fn test_catalog_statements() {
    assert_eq!(
        sql::subcats_sql(2),
        "SELECT DISTINCT FROM_BASE64(TO_BASE64(page_title)) FROM page,categorylinks WHERE page_id=cl_from AND cl_to IN (?,?) AND cl_type='subcat'"
    );
    assert_eq!(
        sql::pages_in_category_sql(6, 2),
        "SELECT DISTINCT FROM_BASE64(TO_BASE64(page_title)) FROM page,categorylinks WHERE cl_from=page_id AND page_namespace=6 AND cl_to IN (?,?) AND page_is_redirect=0"
    );
    assert_eq!(
        sql::globalimagelinks_sql(1),
        "SELECT gil_wiki,gil_page,gil_page_namespace_id,gil_page_namespace,gil_page_title,gil_to FROM `globalimagelinks` WHERE `gil_to` IN (?)"
    );
    assert_eq!(
        sql::existing_categories_sql(2),
        "SELECT `page_title` FROM `page` WHERE `page_namespace`=14 AND `page_title` IN (?,?)"
    );
    assert_eq!(
        sql::deactivate_groups_sql(3),
        "UPDATE `groups` SET is_active=0 WHERE id IN (?,?,?)"
    );
}

#[test]
fn test_control_statements() {
    assert_eq!(
        sql::group_by_id_sql(1255),
        "SELECT id,FROM_BASE64(TO_BASE64(category)),depth,FROM_BASE64(TO_BASE64(added_by)),just_added,is_active,is_user_name FROM `groups` WHERE id=1255"
    );
    assert!(sql::next_group_id_sql(false).contains("ORDER BY rand() LIMIT 1"));
    assert!(sql::next_group_id_sql(true).contains("AND EXISTS"));
    assert!(!sql::next_group_id_sql(false).contains("AND EXISTS"));
}

#[test]
fn test_view_counts_todo_statements() {
    assert_eq!(
        sql::view_counts_todo_sqlite_sql(3000),
        "SELECT DISTINCT `views`.`id` AS id,title,namespace_id,grok_code,server,done,`views`.`site` AS site_id FROM `views`,`sites` WHERE `done`=0 AND `sites`.`id`=`views`.`site` LIMIT 3000"
    );
    assert!(sql::view_counts_todo_sql(29, 3000).contains("`group_status_id`=29"));
}

#[test]
fn test_sqlite_paths() {
    let ym = YearMonth::new(2022, 10).unwrap();
    assert_eq!(
        sql::construct_sqlite3_filename("/data/project/glamtools/viewdata", &ym, 782),
        "/data/project/glamtools/viewdata/202210/782.sqlite"
    );
    assert_eq!(
        sql::construct_sqlite3_temporary_filename(&ym, 782),
        "/tmp/2022-10.782.sqlite3"
    );
}
