//! SQL statement text, built verified: every builder's contract pins the
//! produced statement to an exact character sequence.
//!
//! The storage layer executes these statements outside the library; what is
//! proved here is that the text sent is precisely the text specified.

use crate::text::{dec_str, dec_str_i, i32_to_string, i64_to_string, pad2, spec_join, join_strings,
    u64_to_string, usize_to_string};
use vstd::prelude::*;
use vstd::string::StrSliceExecFns;
use vstd::string::StringExecFns;

verus! {

/// `n` question marks joined by commas.
pub open spec fn spec_sql_placeholders(n: nat) -> Seq<char>
    decreases n,
{
    if n == 0 {
        Seq::empty()
    } else if n == 1 {
        seq!['?']
    } else {
        spec_sql_placeholders((n - 1) as nat) + seq![',', '?']
    }
}

/// A comma-joined list of `n` parameter placeholders.
pub fn sql_placeholders(num: usize) -> (s: String)
    ensures
        s@ == spec_sql_placeholders(num as nat),
{
    let mut s = String::new();
    if num == 0 {
        proof {
            assert(s@ =~= spec_sql_placeholders(0));
        }
        return s;
    }
    crate::text::push_char(&mut s, '?');
    proof {
        assert(s@ =~= spec_sql_placeholders(1));
    }
    let mut i: usize = 1;
    while i < num
        invariant
            1 <= i <= num,
            s@ == spec_sql_placeholders(i as nat),
        decreases num - i,
    {
        s.append(",?");
        proof {
            reveal_strlit(",?");
            assert(s@ =~= spec_sql_placeholders((i + 1) as nat));
        }
        i += 1;
    }
    s
}

/// The placeholder list for `n >= 1` parameters is `2n - 1` characters long:
/// one `?` per parameter and a comma between consecutive parameters.
pub proof fn lemma_sql_placeholders_len(n: nat)
    requires
        n >= 1,
    ensures
        spec_sql_placeholders(n).len() == 2 * n - 1,
    decreases n,
{
    if n > 1 {
        lemma_sql_placeholders_len((n - 1) as nat);
    }
}

/// The `s` repeated `count` times with its final character removed; the
/// caller's repeating unit carries a trailing comma.
pub open spec fn spec_repeat(s: Seq<char>, n: nat) -> Seq<char>
    decreases n,
{
    if n == 0 {
        Seq::empty()
    } else {
        spec_repeat(s, (n - 1) as nat) + s
    }
}

/// The repeated unit with the trailing separator character removed.
pub open spec fn spec_get_placeholders(s: Seq<char>, n: nat) -> Seq<char> {
    let rep = spec_repeat(s, n);
    if rep.len() == 0 {
        rep
    } else {
        rep.take(rep.len() - 1)
    }
}

/// Rejection of an empty placeholder request.
#[derive(Debug, Clone, Copy, PartialEq, Eq, Structural)]
pub struct PlaceholderError;

/// Repeats the unit `count` times and drops the trailing separator
/// character; a request for zero repeats is refused.
pub fn get_placeholders(s: &str, count: usize) -> (r: Result<String, PlaceholderError>)
    ensures
        r is Ok <==> count > 0,
        r matches Ok(p) ==> p@ == spec_get_placeholders(s@, count as nat),
{
    if count == 0 {
        return Err(PlaceholderError);
    }
    let mut out = String::new();
    let mut i: usize = 0;
    while i < count
        invariant
            i <= count,
            out@ == spec_repeat(s@, i as nat),
        decreases count - i,
    {
        out.append(s);
        i += 1;
    }
    let n = out.as_str().unicode_len();
    if n == 0 {
        return Ok(out);
    }
    let trimmed = out.as_str().substring_char(0, n - 1).to_owned();
    proof {
        assert(trimmed@ =~= spec_get_placeholders(s@, count as nat));
    }
    Ok(trimmed)
}

/// The tuple rendered into a `views` insert: placeholders only for the
/// title; a fresh row starts with `done` and `views` at zero.
pub open spec fn spec_view_sql_value(
    site_id: int,
    month: int,
    year: int,
    namespace_id: int,
    page_id: int,
) -> Seq<char> {
    seq!['('] + dec_str(site_id as nat) + ",?,"@ + dec_str(month as nat) + seq![','] + dec_str(
        year as nat,
    ) + ",0,"@ + dec_str_i(namespace_id) + seq![','] + dec_str(page_id as nat) + ",0)"@
}

pub fn view_sql_value(site_id: usize, month: u32, year: i32, namespace_id: i32, page_id: usize)
    -> (s: String)
    requires
        year >= 0,
    ensures
        s@ == spec_view_sql_value(
            site_id as int,
            month as int,
            year as int,
            namespace_id as int,
            page_id as int,
        ),
{
    let mut s = String::new();
    crate::text::push_char(&mut s, '(');
    let p0 = usize_to_string(site_id);
    s.append(p0.as_str());
    s.append(",?,");
    let p1 = u64_to_string(month as u64);
    s.append(p1.as_str());
    crate::text::push_char(&mut s, ',');
    let p2 = u64_to_string(year as u64);
    s.append(p2.as_str());
    s.append(",0,");
    let p3 = i32_to_string(namespace_id);
    s.append(p3.as_str());
    crate::text::push_char(&mut s, ',');
    let p4 = usize_to_string(page_id);
    s.append(p4.as_str());
    s.append(",0)");
    proof {
        reveal_strlit(",?,");
        reveal_strlit(",0,");
        reveal_strlit(",0)");
        assert(s@ =~= spec_view_sql_value(
            site_id as int,
            month as int,
            year as int,
            namespace_id as int,
            page_id as int,
        ));
    }
    s
}

/// The tuple rendered into a `group2view` insert, the image name kept as a
/// placeholder.
pub open spec fn spec_group2view_value(group_status_id: int, view_id: int) -> Seq<char> {
    seq!['('] + dec_str(group_status_id as nat) + seq![','] + dec_str(view_id as nat) + ",?)"@
}

pub fn group2view_value(group_status_id: usize, view_id: usize) -> (s: String)
    ensures
        s@ == spec_group2view_value(group_status_id as int, view_id as int),
{
    let mut s = String::new();
    crate::text::push_char(&mut s, '(');
    let p0 = usize_to_string(group_status_id);
    s.append(p0.as_str());
    crate::text::push_char(&mut s, ',');
    let p1 = usize_to_string(view_id);
    s.append(p1.as_str());
    s.append(",?)");
    proof {
        reveal_strlit(",?)");
        assert(s@ =~= spec_group2view_value(group_status_id as int, view_id as int));
    }
    s
}

pub open spec fn spec_create_views_in_db_sql(values: Seq<Seq<char>>) -> Seq<char> {
    "INSERT OR IGNORE INTO `views` (site,title,month,year,done,namespace_id,page_id,views) VALUES "@
        + spec_join(values, seq![','])
}

/// The upsert of a batch of view placeholders; duplicates are ignored by
/// the `OR IGNORE` clause.
pub fn create_views_in_db_sql(sql_values: &Vec<String>) -> (s: String)
    ensures
        s@ == spec_create_views_in_db_sql(sql_values.deep_view()),
{
    let mut s =
        "INSERT OR IGNORE INTO `views` (site,title,month,year,done,namespace_id,page_id,views) VALUES ".to_owned();
    let joined = join_strings(sql_values, ",");
    s.append(joined.as_str());
    proof {
        reveal_strlit(",");
        assert(","@ =~= seq![',']);
        assert(s@ =~= spec_create_views_in_db_sql(sql_values.deep_view()));
    }
    s
}

pub open spec fn spec_insert_group2view_sql(values: Seq<Seq<char>>) -> Seq<char> {
    "INSERT OR IGNORE INTO `group2view` (group_status_id,view_id,image) VALUES "@ + spec_join(
        values,
        seq![','],
    )
}

pub fn insert_group2view_sql(values: &Vec<String>) -> (s: String)
    ensures
        s@ == spec_insert_group2view_sql(values.deep_view()),
{
    let mut s =
        "INSERT OR IGNORE INTO `group2view` (group_status_id,view_id,image) VALUES ".to_owned();
    let joined = join_strings(values, ",");
    s.append(joined.as_str());
    proof {
        reveal_strlit(",");
        assert(","@ =~= seq![',']);
        assert(s@ =~= spec_insert_group2view_sql(values.deep_view()));
    }
    s
}

pub open spec fn spec_update_view_count_sql(view_id: int, view_count: int) -> Seq<char> {
    "UPDATE `views` SET `done`=1,`views`="@ + dec_str(view_count as nat) + " WHERE `id`="@
        + dec_str(view_id as nat)
}

/// Marks a view row resolved with its fetched count.
pub fn update_view_count_sql(view_id: usize, view_count: u64) -> (s: String)
    ensures
        s@ == spec_update_view_count_sql(view_id as int, view_count as int),
{
    let mut s = "UPDATE `views` SET `done`=1,`views`=".to_owned();
    let c = u64_to_string(view_count);
    s.append(c.as_str());
    s.append(" WHERE `id`=");
    let v = usize_to_string(view_id);
    s.append(v.as_str());
    proof {
        assert(s@ =~= spec_update_view_count_sql(view_id as int, view_count as int));
    }
    s
}

pub open spec fn spec_view_done_sql(view_id: int, done: int) -> Seq<char> {
    "UPDATE `views` SET `done`="@ + dec_str(done as nat) + ",`views`=0 WHERE `id`="@ + dec_str(
        view_id as nat,
    )
}

/// Marks a view row done with the given outcome code and a zero count.
pub fn view_done_sql(view_id: usize, done: u8) -> (s: String)
    ensures
        s@ == spec_view_done_sql(view_id as int, done as int),
{
    let mut s = "UPDATE `views` SET `done`=".to_owned();
    let d = u64_to_string(done as u64);
    s.append(d.as_str());
    s.append(",`views`=0 WHERE `id`=");
    let v = usize_to_string(view_id);
    s.append(v.as_str());
    proof {
        assert(s@ =~= spec_view_done_sql(view_id as int, done as int));
    }
    s
}

pub open spec fn spec_delete_all_files_sql(group_status_id: int) -> Seq<char> {
    "DELETE FROM `files` WHERE `group_status_id`="@ + dec_str(group_status_id as nat)
}

pub fn delete_all_files_sql(group_status_id: usize) -> (s: String)
    ensures
        s@ == spec_delete_all_files_sql(group_status_id as int),
{
    let mut s = "DELETE FROM `files` WHERE `group_status_id`=".to_owned();
    let g = usize_to_string(group_status_id);
    s.append(g.as_str());
    proof {
        assert(s@ =~= spec_delete_all_files_sql(group_status_id as int));
    }
    s
}

pub open spec fn spec_update_group_status_sql(group_status_id: int) -> Seq<char> {
    "UPDATE group_status SET status='VIEW DATA COMPLETE', total_views=(SELECT sum(views) FROM gs2site WHERE `group_status_id`="@
        + dec_str(group_status_id as nat) + ") WHERE id="@ + dec_str(group_status_id as nat)
}

/// Seals a group status: the status becomes complete and the total is the
/// sum of the per-site aggregates.
pub fn update_group_status_sql(group_status_id: usize) -> (s: String)
    ensures
        s@ == spec_update_group_status_sql(group_status_id as int),
{
    let mut s =
        "UPDATE group_status SET status='VIEW DATA COMPLETE', total_views=(SELECT sum(views) FROM gs2site WHERE `group_status_id`=".to_owned();
    let g = usize_to_string(group_status_id);
    s.append(g.as_str());
    s.append(") WHERE id=");
    let g2 = usize_to_string(group_status_id);
    s.append(g2.as_str());
    proof {
        assert(s@ =~= spec_update_group_status_sql(group_status_id as int));
    }
    s
}

pub open spec fn spec_gs2site_delete_sql(group_status_id: int) -> Seq<char> {
    "DELETE FROM `gs2site` WHERE `group_status_id`="@ + dec_str(group_status_id as nat)
}

pub fn gs2site_delete_sql(group_status_id: usize) -> (s: String)
    ensures
        s@ == spec_gs2site_delete_sql(group_status_id as int),
{
    let mut s = "DELETE FROM `gs2site` WHERE `group_status_id`=".to_owned();
    let g = usize_to_string(group_status_id);
    s.append(g.as_str());
    proof {
        assert(s@ =~= spec_gs2site_delete_sql(group_status_id as int));
    }
    s
}

pub open spec fn spec_gs2site_insert_sql(group_status_id: int) -> Seq<char> {
    "INSERT INTO `gs2site` (group_status_id,site_id,pages,views) SELECT "@ + dec_str(
        group_status_id as nat,
    )
        + ",sites.id,COUNT(DISTINCT page_id),SUM(views) FROM `views`,`sites`,`group2view` WHERE views.site=sites.id AND view_id=views.id AND group_status_id="@
        + dec_str(group_status_id as nat) + " GROUP BY sites.id"@
}

/// Rebuilds the per-site aggregates of a group status from its views.
pub fn gs2site_insert_sql(group_status_id: usize) -> (s: String)
    ensures
        s@ == spec_gs2site_insert_sql(group_status_id as int),
{
    let mut s = "INSERT INTO `gs2site` (group_status_id,site_id,pages,views) SELECT ".to_owned();
    let g = usize_to_string(group_status_id);
    s.append(g.as_str());
    s.append(
        ",sites.id,COUNT(DISTINCT page_id),SUM(views) FROM `views`,`sites`,`group2view` WHERE views.site=sites.id AND view_id=views.id AND group_status_id=",
    );
    let g2 = usize_to_string(group_status_id);
    s.append(g2.as_str());
    s.append(" GROUP BY sites.id");
    proof {
        assert(s@ =~= spec_gs2site_insert_sql(group_status_id as int));
    }
    s
}

pub open spec fn spec_reset_main_page_sql(group_status_id: int) -> Seq<char> {
    "UPDATE views SET views=0 WHERE title='Main_Page' AND views.id IN (SELECT `view_id` FROM `group2view` WHERE `group_status_id`="@
        + dec_str(group_status_id as nat) + " AND `view_id`=`views`.`id`)"@
}

/// Zeroes the Main Page rows of one group status so they cannot dominate
/// the totals.
pub fn reset_main_page_sql(group_status_id: usize) -> (s: String)
    ensures
        s@ == spec_reset_main_page_sql(group_status_id as int),
{
    let mut s =
        "UPDATE views SET views=0 WHERE title='Main_Page' AND views.id IN (SELECT `view_id` FROM `group2view` WHERE `group_status_id`=".to_owned();
    let g = usize_to_string(group_status_id);
    s.append(g.as_str());
    s.append(" AND `view_id`=`views`.`id`)");
    proof {
        assert(s@ =~= spec_reset_main_page_sql(group_status_id as int));
    }
    s
}

/// The title-based Main Page reset of the single-file variant.
pub fn reset_main_page_sqlite_sql() -> (s: String)
    ensures
        s@ == "UPDATE views SET views=0 WHERE title='Main_Page'"@,
{
    "UPDATE views SET views=0 WHERE title='Main_Page'".to_owned()
}

/// The value tuple of one staged file of a group status.
pub open spec fn spec_files_value(group_status_id: int) -> Seq<char> {
    seq!['('] + dec_str(group_status_id as nat) + ",?)"@
}

/// `n` staged-file tuples joined by commas.
pub open spec fn spec_files_values(group_status_id: int, n: nat) -> Seq<char>
    decreases n,
{
    if n == 0 {
        Seq::empty()
    } else if n == 1 {
        spec_files_value(group_status_id)
    } else {
        spec_files_values(group_status_id, (n - 1) as nat) + seq![','] + spec_files_value(
            group_status_id,
        )
    }
}

pub open spec fn spec_insert_files_batch_sql(group_status_id: int, n: nat) -> Seq<char> {
    "INSERT IGNORE INTO `files` (`group_status_id`,`name`) VALUES "@ + spec_files_values(
        group_status_id,
        n,
    )
}

/// Appends `n` file names into the shared staging set of one group status.
pub fn insert_files_batch_sql(group_status_id: usize, n: usize) -> (s: String)
    ensures
        s@ == spec_insert_files_batch_sql(group_status_id as int, n as nat),
{
    let mut unit = String::new();
    crate::text::push_char(&mut unit, '(');
    let g = usize_to_string(group_status_id);
    unit.append(g.as_str());
    unit.append(",?)");
    proof {
        assert(unit@ =~= spec_files_value(group_status_id as int));
    }
    let mut s = "INSERT IGNORE INTO `files` (`group_status_id`,`name`) VALUES ".to_owned();
    if n == 0 {
        proof {
            assert(s@ =~= spec_insert_files_batch_sql(group_status_id as int, 0));
        }
        return s;
    }
    s.append(unit.as_str());
    proof {
        assert(s@ =~= spec_insert_files_batch_sql(group_status_id as int, 1));
    }
    let mut i: usize = 1;
    while i < n
        invariant
            1 <= i <= n,
            unit@ == spec_files_value(group_status_id as int),
            s@ == spec_insert_files_batch_sql(group_status_id as int, i as nat),
        decreases n - i,
    {
        s.append(",");
        s.append(unit.as_str());
        proof {
            reveal_strlit(",");
            assert(","@ =~= seq![',']);
            assert(s@ =~= spec_insert_files_batch_sql(group_status_id as int, (i + 1) as nat));
        }
        i += 1;
    }
    s
}

/// `n` single-column placeholders joined by commas.
pub open spec fn spec_filename_values(n: nat) -> Seq<char>
    decreases n,
{
    if n == 0 {
        Seq::empty()
    } else if n == 1 {
        "(?)"@
    } else {
        spec_filename_values((n - 1) as nat) + seq![','] + "(?)"@
    }
}

pub open spec fn spec_insert_files_sqlite_sql(n: nat) -> Seq<char> {
    "INSERT INTO `files` (`filename`) VALUES "@ + spec_filename_values(n)
}

/// Appends `n` file names into the staging table of the single-file variant.
pub fn insert_files_sqlite_sql(n: usize) -> (s: String)
    ensures
        s@ == spec_insert_files_sqlite_sql(n as nat),
{
    let mut s = "INSERT INTO `files` (`filename`) VALUES ".to_owned();
    if n == 0 {
        proof {
            assert(s@ =~= spec_insert_files_sqlite_sql(0));
        }
        return s;
    }
    s.append("(?)");
    proof {
        assert(s@ =~= spec_insert_files_sqlite_sql(1));
    }
    let mut i: usize = 1;
    while i < n
        invariant
            1 <= i <= n,
            s@ == spec_insert_files_sqlite_sql(i as nat),
        decreases n - i,
    {
        s.append(",(?)");
        proof {
            reveal_strlit(",(?)");
            reveal_strlit("(?)");
            assert(",(?)"@ =~= seq![','] + "(?)"@);
            assert(s@ =~= spec_insert_files_sqlite_sql((i + 1) as nat));
        }
        i += 1;
    }
    s
}

pub open spec fn spec_load_files_batch_sql(group_status_id: int, batch: int, offset: int)
    -> Seq<char> {
    "SELECT `name` FROM `files` WHERE `group_status_id`="@ + dec_str(group_status_id as nat)
        + " LIMIT "@ + dec_str(batch as nat) + " OFFSET "@ + dec_str(offset as nat)
}

/// One restartable page over the shared staging set.
pub fn load_files_batch_sql(group_status_id: usize, batch_size: usize, offset: usize) -> (s:
    String)
    ensures
        s@ == spec_load_files_batch_sql(group_status_id as int, batch_size as int, offset as int),
{
    let mut s = "SELECT `name` FROM `files` WHERE `group_status_id`=".to_owned();
    let g = usize_to_string(group_status_id);
    s.append(g.as_str());
    s.append(" LIMIT ");
    let b = usize_to_string(batch_size);
    s.append(b.as_str());
    s.append(" OFFSET ");
    let o = usize_to_string(offset);
    s.append(o.as_str());
    proof {
        assert(s@ =~= spec_load_files_batch_sql(
            group_status_id as int,
            batch_size as int,
            offset as int,
        ));
    }
    s
}

pub open spec fn spec_load_files_sqlite_sql(batch: int, offset: int) -> Seq<char> {
    "SELECT `filename` FROM `files` LIMIT "@ + dec_str(batch as nat) + " OFFSET "@ + dec_str(
        offset as nat,
    )
}

/// One restartable page over the staging table of the single-file variant.
pub fn load_files_sqlite_sql(batch_size: usize, offset: usize) -> (s: String)
    ensures
        s@ == spec_load_files_sqlite_sql(batch_size as int, offset as int),
{
    let mut s = "SELECT `filename` FROM `files` LIMIT ".to_owned();
    let b = usize_to_string(batch_size);
    s.append(b.as_str());
    s.append(" OFFSET ");
    let o = usize_to_string(offset);
    s.append(o.as_str());
    proof {
        assert(s@ =~= spec_load_files_sqlite_sql(batch_size as int, offset as int));
    }
    s
}

pub open spec fn spec_deactivate_groups_sql(n: nat) -> Seq<char> {
    "UPDATE `groups` SET is_active=0 WHERE id IN ("@ + spec_sql_placeholders(n) + seq![')']
}

/// Deactivates the listed groups.
pub fn deactivate_groups_sql(n: usize) -> (s: String)
    ensures
        s@ == spec_deactivate_groups_sql(n as nat),
{
    let mut s = "UPDATE `groups` SET is_active=0 WHERE id IN (".to_owned();
    let p = sql_placeholders(n);
    s.append(p.as_str());
    crate::text::push_char(&mut s, ')');
    proof {
        assert(s@ =~= spec_deactivate_groups_sql(n as nat));
    }
    s
}

pub open spec fn spec_existing_categories_sql(n: nat) -> Seq<char> {
    "SELECT `page_title` FROM `page` WHERE `page_namespace`=14 AND `page_title` IN ("@
        + spec_sql_placeholders(n) + seq![')']
}

/// Selects which of `n` category titles exist as category pages.
pub fn existing_categories_sql(n: usize) -> (s: String)
    ensures
        s@ == spec_existing_categories_sql(n as nat),
{
    let mut s =
        "SELECT `page_title` FROM `page` WHERE `page_namespace`=14 AND `page_title` IN (".to_owned();
    let p = sql_placeholders(n);
    s.append(p.as_str());
    crate::text::push_char(&mut s, ')');
    proof {
        assert(s@ =~= spec_existing_categories_sql(n as nat));
    }
    s
}

pub open spec fn spec_subcats_sql(n: nat) -> Seq<char> {
    "SELECT DISTINCT FROM_BASE64(TO_BASE64(page_title)) FROM page,categorylinks WHERE page_id=cl_from AND cl_to IN ("@
        + spec_sql_placeholders(n) + ") AND cl_type='subcat'"@
}

/// Selects the direct subcategories of `n` categories.
pub fn subcats_sql(n: usize) -> (s: String)
    ensures
        s@ == spec_subcats_sql(n as nat),
{
    let mut s =
        "SELECT DISTINCT FROM_BASE64(TO_BASE64(page_title)) FROM page,categorylinks WHERE page_id=cl_from AND cl_to IN (".to_owned();
    let p = sql_placeholders(n);
    s.append(p.as_str());
    s.append(") AND cl_type='subcat'");
    proof {
        assert(s@ =~= spec_subcats_sql(n as nat));
    }
    s
}

pub open spec fn spec_pages_in_category_sql(namespace: int, n: nat) -> Seq<char> {
    "SELECT DISTINCT FROM_BASE64(TO_BASE64(page_title)) FROM page,categorylinks WHERE cl_from=page_id AND page_namespace="@
        + dec_str_i(namespace) + " AND cl_to IN ("@ + spec_sql_placeholders(n)
        + ") AND page_is_redirect=0"@
}

/// Selects the non-redirect pages of a namespace categorized under any of
/// `n` categories.
pub fn pages_in_category_sql(namespace: i64, n: usize) -> (s: String)
    requires
        namespace > i64::MIN,
    ensures
        s@ == spec_pages_in_category_sql(namespace as int, n as nat),
{
    let mut s =
        "SELECT DISTINCT FROM_BASE64(TO_BASE64(page_title)) FROM page,categorylinks WHERE cl_from=page_id AND page_namespace=".to_owned();
    let ns = i64_to_string(namespace);
    s.append(ns.as_str());
    s.append(" AND cl_to IN (");
    let p = sql_placeholders(n);
    s.append(p.as_str());
    s.append(") AND page_is_redirect=0");
    proof {
        assert(s@ =~= spec_pages_in_category_sql(namespace as int, n as nat));
    }
    s
}

pub open spec fn spec_globalimagelinks_sql(n: nat) -> Seq<char> {
    "SELECT gil_wiki,gil_page,gil_page_namespace_id,gil_page_namespace,gil_page_title,gil_to FROM `globalimagelinks` WHERE `gil_to` IN ("@
        + spec_sql_placeholders(n) + seq![')']
}

/// Selects every embedding of any of `n` files.
pub fn globalimagelinks_sql(n: usize) -> (s: String)
    ensures
        s@ == spec_globalimagelinks_sql(n as nat),
{
    let mut s =
        "SELECT gil_wiki,gil_page,gil_page_namespace_id,gil_page_namespace,gil_page_title,gil_to FROM `globalimagelinks` WHERE `gil_to` IN (".to_owned();
    let p = sql_placeholders(n);
    s.append(p.as_str());
    crate::text::push_char(&mut s, ')');
    proof {
        assert(s@ =~= spec_globalimagelinks_sql(n as nat));
    }
    s
}

/// One `(site, title)` disjunct of the single-file reverse lookup.
pub open spec fn spec_viewid_lookup_part_sqlite(site_id: int) -> Seq<char> {
    "(`site`="@ + dec_str(site_id as nat) + " AND `title`=?)"@
}

pub fn viewid_lookup_part_sqlite(site_id: usize) -> (s: String)
    ensures
        s@ == spec_viewid_lookup_part_sqlite(site_id as int),
{
    let mut s = "(`site`=".to_owned();
    let g = usize_to_string(site_id);
    s.append(g.as_str());
    s.append(" AND `title`=?)");
    proof {
        assert(s@ =~= spec_viewid_lookup_part_sqlite(site_id as int));
    }
    s
}

/// One `(site, page, year, month)` disjunct of the shared-store reverse
/// lookup.
pub open spec fn spec_viewid_lookup_part(site_id: int, page_id: int, year: int, month: int)
    -> Seq<char> {
    "(`site`="@ + dec_str(site_id as nat) + " AND `page_id`="@ + dec_str(page_id as nat)
        + " AND `year`="@ + dec_str(year as nat) + " AND `month`="@ + dec_str(month as nat)
        + seq![')']
}

pub fn viewid_lookup_part(site_id: usize, page_id: usize, year: i32, month: u32) -> (s: String)
    requires
        year >= 0,
    ensures
        s@ == spec_viewid_lookup_part(site_id as int, page_id as int, year as int, month as int),
{
    let mut s = "(`site`=".to_owned();
    let p0 = usize_to_string(site_id);
    s.append(p0.as_str());
    s.append(" AND `page_id`=");
    let p1 = usize_to_string(page_id);
    s.append(p1.as_str());
    s.append(" AND `year`=");
    let p2 = u64_to_string(year as u64);
    s.append(p2.as_str());
    s.append(" AND `month`=");
    let p3 = u64_to_string(month as u64);
    s.append(p3.as_str());
    crate::text::push_char(&mut s, ')');
    proof {
        assert(s@ =~= spec_viewid_lookup_part(
            site_id as int,
            page_id as int,
            year as int,
            month as int,
        ));
    }
    s
}

pub open spec fn spec_viewid_lookup_sql(parts: Seq<Seq<char>>) -> Seq<char> {
    "SELECT id,site,title FROM `views` WHERE "@ + spec_join(parts, " OR "@)
}

/// The reverse lookup over a batch of disjuncts.
pub fn viewid_lookup_sql(parts: &Vec<String>) -> (s: String)
    ensures
        s@ == spec_viewid_lookup_sql(parts.deep_view()),
{
    let mut s = "SELECT id,site,title FROM `views` WHERE ".to_owned();
    let joined = join_strings(parts, " OR ");
    s.append(joined.as_str());
    proof {
        assert(s@ =~= spec_viewid_lookup_sql(parts.deep_view()));
    }
    s
}

pub open spec fn spec_view_counts_todo_sql(group_status_id: int, batch: int) -> Seq<char> {
    "SELECT DISTINCT `views`.`id` AS id,title,namespace_id,grok_code,server,done,`views`.`site` AS site_id FROM `views`,`sites`,`group2view` WHERE `done`=0 AND `sites`.`id`=`views`.`site` AND `group_status_id`="@
        + dec_str(group_status_id as nat) + " AND `view_id`=`views`.`id` LIMIT "@ + dec_str(
        batch as nat,
    )
}

/// Fetches a batch of unresolved view rows of one group status.
pub fn view_counts_todo_sql(group_status_id: usize, batch_size: usize) -> (s: String)
    ensures
        s@ == spec_view_counts_todo_sql(group_status_id as int, batch_size as int),
{
    let mut s =
        "SELECT DISTINCT `views`.`id` AS id,title,namespace_id,grok_code,server,done,`views`.`site` AS site_id FROM `views`,`sites`,`group2view` WHERE `done`=0 AND `sites`.`id`=`views`.`site` AND `group_status_id`=".to_owned();
    let g = usize_to_string(group_status_id);
    s.append(g.as_str());
    s.append(" AND `view_id`=`views`.`id` LIMIT ");
    let b = usize_to_string(batch_size);
    s.append(b.as_str());
    proof {
        assert(s@ =~= spec_view_counts_todo_sql(group_status_id as int, batch_size as int));
    }
    s
}

pub open spec fn spec_view_counts_todo_sqlite_sql(batch: int) -> Seq<char> {
    "SELECT DISTINCT `views`.`id` AS id,title,namespace_id,grok_code,server,done,`views`.`site` AS site_id FROM `views`,`sites` WHERE `done`=0 AND `sites`.`id`=`views`.`site` LIMIT "@
        + dec_str(batch as nat)
}

/// Selects one group by id.
pub fn group_by_id_sql(group_id: usize) -> (s: String)
    ensures
        s@
            == "SELECT id,FROM_BASE64(TO_BASE64(category)),depth,FROM_BASE64(TO_BASE64(added_by)),just_added,is_active,is_user_name FROM `groups` WHERE id="@
            + dec_str(group_id as nat),
{
    let mut s = crate::records::RowGroup::sql_select();
    s.append(" WHERE id=");
    let g = usize_to_string(group_id);
    s.append(g.as_str());
    proof {
        reveal_strlit(
            "SELECT id,FROM_BASE64(TO_BASE64(category)),depth,FROM_BASE64(TO_BASE64(added_by)),just_added,is_active,is_user_name FROM `groups`",
        );
        reveal_strlit(" WHERE id=");
        reveal_strlit(
            "SELECT id,FROM_BASE64(TO_BASE64(category)),depth,FROM_BASE64(TO_BASE64(added_by)),just_added,is_active,is_user_name FROM `groups` WHERE id=",
        );
        assert(s@
            =~= "SELECT id,FROM_BASE64(TO_BASE64(category)),depth,FROM_BASE64(TO_BASE64(added_by)),just_added,is_active,is_user_name FROM `groups` WHERE id="@
            + dec_str(group_id as nat));
    }
    s
}

/// Selects every active category-based group, for the control-plane sweep.
pub fn active_groups_sql() -> (s: String)
    ensures
        s@
            == "SELECT id,FROM_BASE64(TO_BASE64(category)),depth,FROM_BASE64(TO_BASE64(added_by)),just_added,is_active,is_user_name FROM `groups` WHERE is_user_name=0 AND is_active=1"@,
{
    let mut s = crate::records::RowGroup::sql_select();
    s.append(" WHERE is_user_name=0 AND is_active=1");
    proof {
        reveal_strlit(
            "SELECT id,FROM_BASE64(TO_BASE64(category)),depth,FROM_BASE64(TO_BASE64(added_by)),just_added,is_active,is_user_name FROM `groups`",
        );
        reveal_strlit(" WHERE is_user_name=0 AND is_active=1");
        reveal_strlit(
            "SELECT id,FROM_BASE64(TO_BASE64(category)),depth,FROM_BASE64(TO_BASE64(added_by)),just_added,is_active,is_user_name FROM `groups` WHERE is_user_name=0 AND is_active=1",
        );
        assert(s@
            =~= "SELECT id,FROM_BASE64(TO_BASE64(category)),depth,FROM_BASE64(TO_BASE64(added_by)),just_added,is_active,is_user_name FROM `groups` WHERE is_user_name=0 AND is_active=1"@);
    }
    s
}

/// Selects a group's status row for one month.
pub fn group_status_select_sql() -> (s: String)
    ensures
        s@
            == "SELECT id,group_id,year,month,status,total_views,file,sqlite3 FROM `group_status` WHERE group_id=? AND year=? AND month=?"@,
{
    "SELECT id,group_id,year,month,status,total_views,file,sqlite3 FROM `group_status` WHERE group_id=? AND year=? AND month=?".to_owned()
}

/// The idempotent upsert of a group's status row.
pub fn set_group_status_sql() -> (s: String)
    ensures
        s@
            == "REPLACE INTO `group_status` (group_id,year,month,status,total_views,sqlite3) VALUES (:group_id,:year,:month,:status,:total_views,:sqlite_filename)"@,
{
    "REPLACE INTO `group_status` (group_id,year,month,status,total_views,sqlite3) VALUES (:group_id,:year,:month,:status,:total_views,:sqlite_filename)".to_owned()
}

/// Clears the month's statuses that never completed, before a fresh sweep.
pub fn clear_incomplete_sql() -> (s: String)
    ensures
        s@
            == "DELETE FROM group_status WHERE year=:year AND month=:month AND status!='VIEW DATA COMPLETE'"@,
{
    "DELETE FROM group_status WHERE year=:year AND month=:month AND status!='VIEW DATA COMPLETE'".to_owned()
}

/// Draws a random active group without a status row for the month; when
/// backfilling, the group must already have a row for some earlier month.
pub fn next_group_id_sql(requires_previous_date: bool) -> (s: String)
    ensures
        !requires_previous_date ==> s@
            == "SELECT id FROM groups WHERE is_active=1 AND NOT EXISTS (SELECT * FROM group_status WHERE groups.id=group_id AND year=:year AND month=:month) ORDER BY rand() LIMIT 1"@,
        requires_previous_date ==> s@
            == "SELECT id FROM groups WHERE is_active=1 AND NOT EXISTS (SELECT * FROM group_status WHERE groups.id=group_id AND year=:year AND month=:month) AND EXISTS (SELECT * FROM group_status WHERE groups.id=group_id AND (year<:year OR (year=:year AND month<:month))) ORDER BY rand() LIMIT 1"@,
{
    let mut s =
        "SELECT id FROM groups WHERE is_active=1 AND NOT EXISTS (SELECT * FROM group_status WHERE groups.id=group_id AND year=:year AND month=:month)".to_owned();
    if requires_previous_date {
        s.append(
            " AND EXISTS (SELECT * FROM group_status WHERE groups.id=group_id AND (year<:year OR (year=:year AND month<:month)))",
        );
    }
    s.append(" ORDER BY rand() LIMIT 1");
    proof {
        reveal_strlit(
            "SELECT id FROM groups WHERE is_active=1 AND NOT EXISTS (SELECT * FROM group_status WHERE groups.id=group_id AND year=:year AND month=:month)",
        );
        reveal_strlit(
            " AND EXISTS (SELECT * FROM group_status WHERE groups.id=group_id AND (year<:year OR (year=:year AND month<:month)))",
        );
        reveal_strlit(" ORDER BY rand() LIMIT 1");
        reveal_strlit(
            "SELECT id FROM groups WHERE is_active=1 AND NOT EXISTS (SELECT * FROM group_status WHERE groups.id=group_id AND year=:year AND month=:month) AND EXISTS (SELECT * FROM group_status WHERE groups.id=group_id AND (year<:year OR (year=:year AND month<:month))) ORDER BY rand() LIMIT 1",
        );
        reveal_strlit(
            "SELECT id FROM groups WHERE is_active=1 AND NOT EXISTS (SELECT * FROM group_status WHERE groups.id=group_id AND year=:year AND month=:month) ORDER BY rand() LIMIT 1",
        );
        if requires_previous_date {
            assert(s@
                =~= "SELECT id FROM groups WHERE is_active=1 AND NOT EXISTS (SELECT * FROM group_status WHERE groups.id=group_id AND year=:year AND month=:month) AND EXISTS (SELECT * FROM group_status WHERE groups.id=group_id AND (year<:year OR (year=:year AND month<:month))) ORDER BY rand() LIMIT 1"@);
        } else {
            assert(s@
                =~= "SELECT id FROM groups WHERE is_active=1 AND NOT EXISTS (SELECT * FROM group_status WHERE groups.id=group_id AND year=:year AND month=:month) ORDER BY rand() LIMIT 1"@);
        }
    }
    s
}

/// Selects every file a user uploaded.
pub fn files_from_user_sql() -> (s: String)
    ensures
        s@
            == "SELECT DISTINCT FROM_BASE64(TO_BASE64(img_name)) FROM image,actor,user WHERE img_actor=actor_id AND user_name=:user_name AND user_id=actor_user"@,
{
    "SELECT DISTINCT FROM_BASE64(TO_BASE64(img_name)) FROM image,actor,user WHERE img_actor=actor_id AND user_name=:user_name AND user_id=actor_user".to_owned()
}

/// Selects the full site table.
pub fn sites_select_sql() -> (s: String)
    ensures
        s@ == "SELECT id,grok_code,server,giu_code,project,language,name FROM `sites`"@,
{
    "SELECT id,grok_code,server,giu_code,project,language,name FROM `sites`".to_owned()
}

/// Selects a group status row's id.
pub fn group_status_id_sql() -> (s: String)
    ensures
        s@ == "SELECT `id` FROM `group_status` WHERE `group_id`=? AND `year`=? AND `month`=?"@,
{
    "SELECT `id` FROM `group_status` WHERE `group_id`=? AND `year`=? AND `month`=?".to_owned()
}

/// Reads a sealed total, zero when none was written.
pub fn total_views_sql() -> (s: String)
    ensures
        s@ == "SELECT ifnull(total_views,0) FROM group_status WHERE id=?"@,
{
    "SELECT ifnull(total_views,0) FROM group_status WHERE id=?".to_owned()
}

/// The first read-optimized index built when a snapshot is sealed.
pub fn final_index_views_sql() -> (s: String)
    ensures
        s@ == "CREATE INDEX `views_views_site_done` ON `views` (`site`,`done`,`views`)"@,
{
    "CREATE INDEX `views_views_site_done` ON `views` (`site`,`done`,`views`)".to_owned()
}

/// The second read-optimized index built when a snapshot is sealed.
pub fn final_index_g2v_sql() -> (s: String)
    ensures
        s@ == "CREATE INDEX `g2v_view_id` ON `group2view` (`view_id`)"@,
{
    "CREATE INDEX `g2v_view_id` ON `group2view` (`view_id`)".to_owned()
}

/// The published path of a sealed single-file snapshot: a dated
/// subdirectory under the root, one file per group.
pub open spec fn spec_sqlite_final_path(root: Seq<char>, year: int, month: int, group_id: int)
    -> Seq<char> {
    root + seq!['/'] + dec_str(year as nat) + pad2(month as nat) + seq!['/'] + dec_str(
        group_id as nat,
    ) + ".sqlite"@
}

/// Builds the published path of a sealed single-file snapshot.
pub fn construct_sqlite3_filename(root: &str, ym: &crate::year_month::YearMonth, group_id: usize)
    -> (s: String)
    requires
        ym.wf(),
    ensures
        s@ == spec_sqlite_final_path(root@, ym.spec_year(), ym.spec_month(), group_id as int),
{
    let mut s = root.to_owned();
    crate::text::push_char(&mut s, '/');
    let d = ym.month_subdir();
    s.append(d.as_str());
    crate::text::push_char(&mut s, '/');
    let g = usize_to_string(group_id);
    s.append(g.as_str());
    s.append(".sqlite");
    proof {
        assert(s@ =~= spec_sqlite_final_path(
            root@,
            ym.spec_year(),
            ym.spec_month(),
            group_id as int,
        ));
    }
    s
}

/// The scratch path a snapshot is built in before it is published.
pub open spec fn spec_sqlite_tmp_path(year: int, month: int, group_id: int) -> Seq<char> {
    "/tmp/"@ + dec_str(year as nat) + seq!['-'] + pad2(month as nat) + seq!['.'] + dec_str(
        group_id as nat,
    ) + ".sqlite3"@
}

/// Builds the scratch path a snapshot is built in.
pub fn construct_sqlite3_temporary_filename(ym: &crate::year_month::YearMonth, group_id: usize)
    -> (s: String)
    requires
        ym.wf(),
    ensures
        s@ == spec_sqlite_tmp_path(ym.spec_year(), ym.spec_month(), group_id as int),
{
    let mut s = "/tmp/".to_owned();
    let y = ym.to_string();
    s.append(y.as_str());
    crate::text::push_char(&mut s, '.');
    let g = usize_to_string(group_id);
    s.append(g.as_str());
    s.append(".sqlite3");
    proof {
        assert(s@ =~= spec_sqlite_tmp_path(ym.spec_year(), ym.spec_month(), group_id as int));
    }
    s
}

/// Seeds one site row into a fresh single-file snapshot.
pub fn seed_site_sql() -> (s: String)
    ensures
        s@
            == "INSERT INTO `sites` (id,grok_code,server,giu_code,project,language,name) VALUES (?,?,?,?,?,?,?)"@,
{
    "INSERT INTO `sites` (id,grok_code,server,giu_code,project,language,name) VALUES (?,?,?,?,?,?,?)".to_owned()
}

/// Seeds the group's own row into a fresh single-file snapshot.
pub fn seed_group_sql() -> (s: String)
    ensures
        s@ == "INSERT INTO `groups` (id,category,depth,added_by,just_added) VALUES (?,?,?,?,?)"@,
{
    "INSERT INTO `groups` (id,category,depth,added_by,just_added) VALUES (?,?,?,?,?)".to_owned()
}

/// Writes one sealed view row, id included, into the published file.
pub fn seed_view_row_sql() -> (s: String)
    ensures
        s@
            == "INSERT OR IGNORE INTO `views` (id,site,title,month,year,done,namespace_id,page_id,views) VALUES (?,?,?,?,?,?,?,?,?)"@,
{
    "INSERT OR IGNORE INTO `views` (id,site,title,month,year,done,namespace_id,page_id,views) VALUES (?,?,?,?,?,?,?,?,?)".to_owned()
}

/// Writes one per-site aggregate into the published file.
pub fn seed_gs2site_sql() -> (s: String)
    ensures
        s@ == "INSERT INTO `gs2site` VALUES (?,?,?,?,?)"@,
{
    "INSERT INTO `gs2site` VALUES (?,?,?,?,?)".to_owned()
}

/// Writes the sealed status row into the published file.
pub fn seed_group_status_sql() -> (s: String)
    ensures
        s@
            == "INSERT INTO `group_status` (id,group_id,year,month,status,total_views) VALUES (?,?,?,?,?,?)"@,
{
    "INSERT INTO `group_status` (id,group_id,year,month,status,total_views) VALUES (?,?,?,?,?,?)".to_owned()
}

/// Fetches a batch of unresolved view rows of the single-file variant.
pub fn view_counts_todo_sqlite_sql(batch_size: usize) -> (s: String)
    ensures
        s@ == spec_view_counts_todo_sqlite_sql(batch_size as int),
{
    let mut s =
        "SELECT DISTINCT `views`.`id` AS id,title,namespace_id,grok_code,server,done,`views`.`site` AS site_id FROM `views`,`sites` WHERE `done`=0 AND `sites`.`id`=`views`.`site` LIMIT ".to_owned();
    let b = usize_to_string(batch_size);
    s.append(b.as_str());
    proof {
        assert(s@ =~= spec_view_counts_todo_sqlite_sql(batch_size as int));
    }
    s
}

} // verus!
