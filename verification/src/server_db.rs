//! The shared server store: its per-month view table, the two-step
//! surrogate-key acquisition for files and pages, and the statements that
//! fill missing view counts and seal finished group statuses.

use crate::records::{File, FileModel, Page, PageModel};
use crate::text::{dec_str, pad2, replace_char, replaced, str_eq, u64_to_string, u64_to_string_pad2,
    usize_to_string};
use crate::year_month::YearMonth;
use vstd::prelude::*;
use vstd::string::StrSliceExecFns;
use vstd::string::StringExecFns;

verus! {

/// The name of a month's view-data table.
pub open spec fn spec_viewdata_table(year: int, month: int) -> Seq<char> {
    "viewdata_"@ + dec_str(year as nat) + seq!['_'] + pad2(month as nat)
}

/// The per-month table the view data of a month lives in.
pub fn table_name(ym: &YearMonth) -> (s: String)
    requires
        ym.wf(),
    ensures
        s@ == spec_viewdata_table(ym.spec_year(), ym.spec_month()),
{
    let mut s = "viewdata_".to_owned();
    let y = u64_to_string(ym.year() as u64);
    s.append(y.as_str());
    crate::text::push_char(&mut s, '_');
    let m = u64_to_string_pad2(ym.month() as u64);
    s.append(m.as_str());
    proof {
        assert(s@ =~= spec_viewdata_table(ym.spec_year(), ym.spec_month()));
    }
    s
}

pub open spec fn spec_ensure_table_sql(year: int, month: int) -> Seq<char> {
    "CREATE TABLE IF NOT EXISTS `"@ + spec_viewdata_table(year, month)
        + "` (`id` int(11) unsigned NOT NULL AUTO_INCREMENT,`group_status_id` int(11) unsigned NOT NULL,`files_id` int(11) unsigned NOT NULL,`pages_id` int(11) unsigned NOT NULL,`page_views` int(10) unsigned DEFAULT NULL,PRIMARY KEY (`id`),UNIQUE KEY `"@
        + spec_viewdata_table(year, month) + "_idx1` (`group_status_id`,`files_id`,`pages_id`),KEY `"@
        + spec_viewdata_table(year, month) + "_idx2` (`pages_id`),KEY `"@ + spec_viewdata_table(
        year,
        month,
    ) + "_idx3` (`page_views`)) ENGINE=InnoDB DEFAULT CHARSET=ascii"@
}

/// The idempotent creation of a month's view-data table, with its unique
/// `(group_status_id, files_id, pages_id)` key.
pub fn ensure_table_exists_sql(ym: &YearMonth) -> (s: String)
    requires
        ym.wf(),
    ensures
        s@ == spec_ensure_table_sql(ym.spec_year(), ym.spec_month()),
{
    let t = table_name(ym);
    let mut s = "CREATE TABLE IF NOT EXISTS `".to_owned();
    s.append(t.as_str());
    s.append(
        "` (`id` int(11) unsigned NOT NULL AUTO_INCREMENT,`group_status_id` int(11) unsigned NOT NULL,`files_id` int(11) unsigned NOT NULL,`pages_id` int(11) unsigned NOT NULL,`page_views` int(10) unsigned DEFAULT NULL,PRIMARY KEY (`id`),UNIQUE KEY `",
    );
    s.append(t.as_str());
    s.append("_idx1` (`group_status_id`,`files_id`,`pages_id`),KEY `");
    s.append(t.as_str());
    s.append("_idx2` (`pages_id`),KEY `");
    s.append(t.as_str());
    s.append("_idx3` (`page_views`)) ENGINE=InnoDB DEFAULT CHARSET=ascii");
    proof {
        assert(s@ =~= spec_ensure_table_sql(ym.spec_year(), ym.spec_month()));
    }
    s
}

pub open spec fn spec_start_missing_groups_sql(year: int, month: int) -> Seq<char> {
    "INSERT IGNORE INTO group_status(`group_id`,`year`,`month`,`status`,`storage`) SELECT id,"@
        + dec_str(year as nat) + seq![','] + dec_str(month as nat)
        + ",'STARTED','mysql2' FROM groups WHERE is_active=1 AND NOT EXISTS (SELECT * FROM group_status WHERE group_id=groups.id AND year="@
        + dec_str(year as nat) + " AND month="@ + dec_str(month as nat) + seq![')']
}

/// Opens a status row for every active group that has none for the month.
pub fn start_missing_groups_sql(ym: &YearMonth) -> (s: String)
    requires
        ym.wf(),
    ensures
        s@ == spec_start_missing_groups_sql(ym.spec_year(), ym.spec_month()),
{
    let y = u64_to_string(ym.year() as u64);
    let m = u64_to_string(ym.month() as u64);
    let mut s =
        "INSERT IGNORE INTO group_status(`group_id`,`year`,`month`,`status`,`storage`) SELECT id,".to_owned();
    s.append(y.as_str());
    crate::text::push_char(&mut s, ',');
    s.append(m.as_str());
    s.append(
        ",'STARTED','mysql2' FROM groups WHERE is_active=1 AND NOT EXISTS (SELECT * FROM group_status WHERE group_id=groups.id AND year=",
    );
    s.append(y.as_str());
    s.append(" AND month=");
    s.append(m.as_str());
    crate::text::push_char(&mut s, ')');
    proof {
        assert(s@ =~= spec_start_missing_groups_sql(ym.spec_year(), ym.spec_month()));
    }
    s
}

pub open spec fn spec_finalize_status_sql(year: int, month: int) -> Seq<char> {
    "UPDATE group_status SET `status`='VIEW DATA COMPLETE', total_views=(SELECT sum(page_views) FROM `"@
        + spec_viewdata_table(year, month)
        + "` WHERE group_status_id=group_status.id) WHERE `year`="@ + dec_str(year as nat)
        + " AND `month`="@ + dec_str(month as nat)
        + " AND `status`='SCANNED' AND NOT EXISTS (SELECT * FROM `"@ + spec_viewdata_table(
        year,
        month,
    ) + "` WHERE group_status_id=group_status.id AND page_views IS NULL)"@
}

/// Seals every scanned group of the month whose view data is complete: no
/// dependent row may still be unresolved.
pub fn finalize_status_sql(ym: &YearMonth) -> (s: String)
    requires
        ym.wf(),
    ensures
        s@ == spec_finalize_status_sql(ym.spec_year(), ym.spec_month()),
{
    let t = table_name(ym);
    let y = u64_to_string(ym.year() as u64);
    let m = u64_to_string(ym.month() as u64);
    let mut s =
        "UPDATE group_status SET `status`='VIEW DATA COMPLETE', total_views=(SELECT sum(page_views) FROM `".to_owned();
    s.append(t.as_str());
    s.append("` WHERE group_status_id=group_status.id) WHERE `year`=");
    s.append(y.as_str());
    s.append(" AND `month`=");
    s.append(m.as_str());
    s.append(" AND `status`='SCANNED' AND NOT EXISTS (SELECT * FROM `");
    s.append(t.as_str());
    s.append("` WHERE group_status_id=group_status.id AND page_views IS NULL)");
    proof {
        assert(s@ =~= spec_finalize_status_sql(ym.spec_year(), ym.spec_month()));
    }
    s
}

pub open spec fn spec_finalize_totals_sql(year: int, month: int) -> Seq<char> {
    "UPDATE group_status SET total_views=(SELECT COALESCE(sum(page_views),0) FROM `"@
        + spec_viewdata_table(year, month)
        + "` WHERE group_status_id=group_status.id) WHERE `year`="@ + dec_str(year as nat)
        + " AND `month`="@ + dec_str(month as nat)
        + " AND status='VIEW DATA COMPLETE' AND total_views IS NULL"@
}

/// Fills any still-missing total of a sealed group with the coalesced sum,
/// zero when the group has no view data at all.
pub fn finalize_totals_sql(ym: &YearMonth) -> (s: String)
    requires
        ym.wf(),
    ensures
        s@ == spec_finalize_totals_sql(ym.spec_year(), ym.spec_month()),
{
    let t = table_name(ym);
    let y = u64_to_string(ym.year() as u64);
    let m = u64_to_string(ym.month() as u64);
    let mut s =
        "UPDATE group_status SET total_views=(SELECT COALESCE(sum(page_views),0) FROM `".to_owned();
    s.append(t.as_str());
    s.append("` WHERE group_status_id=group_status.id) WHERE `year`=");
    s.append(y.as_str());
    s.append(" AND `month`=");
    s.append(m.as_str());
    s.append(" AND status='VIEW DATA COMPLETE' AND total_views IS NULL");
    proof {
        assert(s@ =~= spec_finalize_totals_sql(ym.spec_year(), ym.spec_month()));
    }
    s
}

pub open spec fn spec_next_started_group_sql(year: int, month: int) -> Seq<char> {
    "SELECT id,group_id FROM `group_status` WHERE `year`="@ + dec_str(year as nat)
        + " AND `month`="@ + dec_str(month as nat)
        + " AND `status`='STARTED' ORDER BY rand() LIMIT 1"@
}

/// Draws a random group of the month whose status row was opened but not
/// processed yet.
pub fn next_started_group_sql(ym: &YearMonth) -> (s: String)
    requires
        ym.wf(),
    ensures
        s@ == spec_next_started_group_sql(ym.spec_year(), ym.spec_month()),
{
    let y = u64_to_string(ym.year() as u64);
    let m = u64_to_string(ym.month() as u64);
    let mut s = "SELECT id,group_id FROM `group_status` WHERE `year`=".to_owned();
    s.append(y.as_str());
    s.append(" AND `month`=");
    s.append(m.as_str());
    s.append(" AND `status`='STARTED' ORDER BY rand() LIMIT 1");
    proof {
        assert(s@ =~= spec_next_started_group_sql(ym.spec_year(), ym.spec_month()));
    }
    s
}

/// One row of the missing-view-data feed: the page's surrogate key, its
/// site's server and its title.
#[derive(Debug)]
pub struct ViewDataRow {
    pub pages_id: usize,
    pub server: String,
    pub title: String,
}

/// The model of a feed row.
#[verifier::ext_equal]
pub struct ViewDataRowModel {
    pub pages_id: int,
    pub server: Seq<char>,
    pub title: Seq<char>,
}

impl View for ViewDataRow {
    type V = ViewDataRowModel;

    open spec fn view(&self) -> ViewDataRowModel {
        ViewDataRowModel {
            pages_id: self.pages_id as int,
            server: self.server@,
            title: self.title@,
        }
    }
}

/// One prepared page-view request of the shared store: the project (the
/// server without `.org`), the underscored title, and the page it resolves.
#[derive(Debug)]
pub struct PageRequest {
    pub project: String,
    pub title: String,
    pub pages_id: usize,
}

/// The model of a prepared request.
#[verifier::ext_equal]
pub struct PageRequestModel {
    pub project: Seq<char>,
    pub title: Seq<char>,
    pub pages_id: int,
}

impl View for PageRequest {
    type V = PageRequestModel;

    open spec fn view(&self) -> PageRequestModel {
        PageRequestModel {
            project: self.project@,
            title: self.title@,
            pages_id: self.pages_id as int,
        }
    }
}

pub open spec fn rows_model(s: Seq<ViewDataRow>) -> Seq<ViewDataRowModel> {
    s.map_values(|r: ViewDataRow| r@)
}

pub open spec fn requests_model(s: Seq<PageRequest>) -> Seq<PageRequestModel> {
    s.map_values(|r: PageRequest| r@)
}

/// The server name with its `.org` suffix removed, when it carries one.
pub open spec fn spec_strip_org(s: Seq<char>) -> Option<Seq<char>> {
    if s.len() >= 4 && s.skip(s.len() - 4) == ".org"@ {
        Some(s.take(s.len() - 4))
    } else {
        None
    }
}

/// Strips the `.org` suffix from a server name.
pub fn strip_org(server: &str) -> (r: Option<String>)
    ensures
        match r {
            Some(p) => spec_strip_org(server@) matches Some(q) && p@ == q,
            None => spec_strip_org(server@) is None,
        },
{
    let n = server.unicode_len();
    if n < 4 {
        return None;
    }
    let tail = server.substring_char(n - 4, n);
    proof {
        assert(server@.skip(n - 4 as int) =~= server@.subrange(n - 4 as int, n as int));
    }
    if str_eq(tail, ".org") {
        Some(server.substring_char(0, n - 4).to_owned())
    } else {
        None
    }
}

/// The requests prepared from the feed: rows with an empty title or a
/// server without `.org` are dropped; titles get underscores.
pub open spec fn spec_prepare_requests(rows: Seq<ViewDataRowModel>) -> Seq<PageRequestModel>
    decreases rows.len(),
{
    if rows.len() == 0 {
        Seq::empty()
    } else {
        let rest = spec_prepare_requests(rows.drop_last());
        let r = rows.last();
        if r.title.len() == 0 {
            rest
        } else {
            match spec_strip_org(r.server) {
                Some(project) => rest.push(
                    PageRequestModel {
                        project,
                        title: replaced(r.title, ' ', '_'),
                        pages_id: r.pages_id,
                    },
                ),
                None => rest,
            }
        }
    }
}

pub proof fn lemma_requests_model_push(s: Seq<PageRequest>, x: PageRequest)
    ensures
        requests_model(s.push(x)) == requests_model(s).push(x@),
{
    assert(requests_model(s.push(x)) =~= requests_model(s).push(x@));
}

/// Prepares the page-view requests for a feed of unresolved rows.
pub fn prepare_pageview_requests(rows: &Vec<ViewDataRow>) -> (r: Vec<PageRequest>)
    ensures
        requests_model(r@) == spec_prepare_requests(rows_model(rows@)),
{
    let ghost rm = rows_model(rows@);
    let mut out: Vec<PageRequest> = Vec::new();
    let mut i: usize = 0;
    while i < rows.len()
        invariant
            i <= rows@.len(),
            rm == rows_model(rows@),
            requests_model(out@) == spec_prepare_requests(rm.take(i as int)),
        decreases rows@.len() - i,
    {
        let row = &rows[i];
        proof {
            assert(rm[i as int] == rows@[i as int]@);
            assert(rm.take((i + 1) as int).drop_last() =~= rm.take(i as int));
            assert(rm.take((i + 1) as int).last() == rm[i as int]);
        }
        if !row.title.as_str().is_empty() {
            match strip_org(row.server.as_str()) {
                Some(project) => {
                    let title = replace_char(row.title.as_str(), ' ', '_');
                    let req = PageRequest { project, title, pages_id: row.pages_id };
                    let ghost prev = out@;
                    proof {
                        assert(req@ =~= (PageRequestModel {
                            project: spec_strip_org(rm[i as int].server).unwrap(),
                            title: replaced(rm[i as int].title, ' ', '_'),
                            pages_id: rm[i as int].pages_id,
                        }));
                    }
                    out.push(req);
                    proof {
                        lemma_requests_model_push(prev, out@[prev.len() as int]);
                        assert(requests_model(out@) =~= spec_prepare_requests(
                            rm.take((i + 1) as int),
                        ));
                    }
                },
                None => {
                    proof {
                        assert(requests_model(out@) =~= spec_prepare_requests(
                            rm.take((i + 1) as int),
                        ));
                    }
                },
            }
        } else {
            proof {
                assert(requests_model(out@) =~= spec_prepare_requests(rm.take((i + 1) as int)));
            }
        }
        i += 1;
    }
    proof {
        assert(rm.take(rows@.len() as int) =~= rm);
    }
    out
}

/// One answer of the page-view API for the shared store.
#[derive(Debug)]
pub struct PageviewsResult {
    pub project: String,
    pub article: String,
    pub views: u64,
}

/// The model of an answer.
#[verifier::ext_equal]
pub struct PageviewsResultModel {
    pub project: Seq<char>,
    pub article: Seq<char>,
    pub views: int,
}

impl View for PageviewsResult {
    type V = PageviewsResultModel;

    open spec fn view(&self) -> PageviewsResultModel {
        PageviewsResultModel {
            project: self.project@,
            article: self.article@,
            views: self.views as int,
        }
    }
}

pub open spec fn results_model(s: Seq<PageviewsResult>) -> Seq<PageviewsResultModel> {
    s.map_values(|r: PageviewsResult| r@)
}

/// The answer for a `(project, article)` key: the last matching one.
pub open spec fn spec_result_views(
    results: Seq<PageviewsResultModel>,
    project: Seq<char>,
    article: Seq<char>,
) -> Option<int>
    decreases results.len(),
{
    if results.len() == 0 {
        None
    } else if results.last().project == project && results.last().article == article {
        Some(results.last().views)
    } else {
        spec_result_views(results.drop_last(), project, article)
    }
}

/// The per-page counts: each request's page paired with its answer, zero
/// where the API returned none.
pub open spec fn spec_merge_results(
    requests: Seq<PageRequestModel>,
    results: Seq<PageviewsResultModel>,
) -> Seq<(int, int)>
    decreases requests.len(),
{
    if requests.len() == 0 {
        Seq::empty()
    } else {
        let rest = spec_merge_results(requests.drop_last(), results);
        let q = requests.last();
        rest.push(
            (
                q.pages_id,
                match spec_result_views(results, q.project, q.title) {
                    Some(v) => v,
                    None => 0int,
                },
            ),
        )
    }
}

/// Finds the last answer for a key.
pub fn result_views(results: &Vec<PageviewsResult>, project: &str, article: &str) -> (r: Option<
    u64,
>)
    ensures
        match r {
            Some(v) => spec_result_views(results_model(results@), project@, article@) == Some(
                v as int,
            ),
            None => spec_result_views(results_model(results@), project@, article@) is None,
        },
{
    let ghost rm = results_model(results@);
    let mut j: usize = results.len();
    proof {
        assert(rm.take(results@.len() as int) =~= rm);
    }
    while j > 0
        invariant
            j <= results@.len(),
            rm == results_model(results@),
            spec_result_views(rm, project@, article@) == spec_result_views(
                rm.take(j as int),
                project@,
                article@,
            ),
        decreases j,
    {
        j -= 1;
        let e = &results[j];
        proof {
            assert(rm[j as int] == results@[j as int]@);
            assert(rm.take((j + 1) as int).drop_last() =~= rm.take(j as int));
            assert(rm.take((j + 1) as int).last() == rm[j as int]);
        }
        if str_eq(e.project.as_str(), project) && str_eq(e.article.as_str(), article) {
            return Some(e.views);
        }
    }
    proof {
        assert(rm.take(0) =~= Seq::<PageviewsResultModel>::empty());
    }
    None
}

/// Maps the API's answers back onto the requested pages; a page the API did
/// not answer for counts zero.
pub fn merge_view_results(requests: &Vec<PageRequest>, results: &Vec<PageviewsResult>) -> (r: Vec<
    (usize, u64),
>)
    ensures
        r@.map_values(|p: (usize, u64)| (p.0 as int, p.1 as int)) == spec_merge_results(
            requests_model(requests@),
            results_model(results@),
        ),
{
    let ghost qm = requests_model(requests@);
    let ghost rm = results_model(results@);
    let mut out: Vec<(usize, u64)> = Vec::new();
    let mut i: usize = 0;
    while i < requests.len()
        invariant
            i <= requests@.len(),
            qm == requests_model(requests@),
            rm == results_model(results@),
            out@.map_values(|p: (usize, u64)| (p.0 as int, p.1 as int)) == spec_merge_results(
                qm.take(i as int),
                rm,
            ),
        decreases requests@.len() - i,
    {
        let q = &requests[i];
        proof {
            assert(qm[i as int] == requests@[i as int]@);
            assert(qm.take((i + 1) as int).drop_last() =~= qm.take(i as int));
            assert(qm.take((i + 1) as int).last() == qm[i as int]);
        }
        let views = match result_views(results, q.project.as_str(), q.title.as_str()) {
            Some(v) => v,
            None => 0,
        };
        out.push((q.pages_id, views));
        proof {
            assert(out@.map_values(|p: (usize, u64)| (p.0 as int, p.1 as int))
                =~= spec_merge_results(qm.take((i + 1) as int), rm));
        }
        i += 1;
    }
    proof {
        assert(qm.take(requests@.len() as int) =~= qm);
    }
    out
}

/// The `WHEN ... THEN ...` arms of the count update, one per page.
pub open spec fn spec_when_chain(pairs: Seq<(int, int)>) -> Seq<char>
    decreases pairs.len(),
{
    if pairs.len() == 0 {
        Seq::empty()
    } else if pairs.len() == 1 {
        "WHEN "@ + dec_str(pairs[0].0 as nat) + " THEN "@ + dec_str(pairs[0].1 as nat)
    } else {
        spec_when_chain(pairs.drop_last()) + " WHEN "@ + dec_str(pairs.last().0 as nat)
            + " THEN "@ + dec_str(pairs.last().1 as nat)
    }
}

/// The page ids of the update, comma-joined.
pub open spec fn spec_ids_list(pairs: Seq<(int, int)>) -> Seq<char>
    decreases pairs.len(),
{
    if pairs.len() == 0 {
        Seq::empty()
    } else if pairs.len() == 1 {
        dec_str(pairs[0].0 as nat)
    } else {
        spec_ids_list(pairs.drop_last()) + seq![','] + dec_str(pairs.last().0 as nat)
    }
}

pub open spec fn spec_case_when_update_sql(table: Seq<char>, pairs: Seq<(int, int)>) -> Seq<char> {
    "UPDATE "@ + table + " SET page_views = CASE pages_id "@ + spec_when_chain(pairs)
        + " ELSE page_views END WHERE pages_id IN ("@ + spec_ids_list(pairs) + seq![')']
}

/// One batched fill of the `page_views` column: each page of the batch gets
/// its fetched count; every other row keeps its value.
pub fn case_when_update_sql(table: &str, pairs: &Vec<(usize, u64)>) -> (s: String)
    ensures
        s@ == spec_case_when_update_sql(
            table@,
            pairs@.map_values(|p: (usize, u64)| (p.0 as int, p.1 as int)),
        ),
{
    let ghost pm = pairs@.map_values(|p: (usize, u64)| (p.0 as int, p.1 as int));
    let mut chain = String::new();
    let mut ids = String::new();
    let mut i: usize = 0;
    while i < pairs.len()
        invariant
            i <= pairs@.len(),
            pm == pairs@.map_values(|p: (usize, u64)| (p.0 as int, p.1 as int)),
            chain@ == spec_when_chain(pm.take(i as int)),
            ids@ == spec_ids_list(pm.take(i as int)),
        decreases pairs@.len() - i,
    {
        let (id, views) = pairs[i];
        proof {
            assert(pm[i as int] == (pairs@[i as int].0 as int, pairs@[i as int].1 as int));
            assert(pm.take((i + 1) as int).drop_last() =~= pm.take(i as int));
            assert(pm.take((i + 1) as int).last() == pm[i as int]);
        }
        if i == 0 {
            chain.append("WHEN ");
        } else {
            chain.append(" WHEN ");
        }
        let idt = usize_to_string(id);
        chain.append(idt.as_str());
        chain.append(" THEN ");
        let vt = u64_to_string(views);
        chain.append(vt.as_str());
        if i > 0 {
            crate::text::push_char(&mut ids, ',');
        }
        let idt2 = usize_to_string(id);
        ids.append(idt2.as_str());
        proof {
            assert(pm.take(1).len() == 1);
            assert(chain@ =~= spec_when_chain(pm.take((i + 1) as int)));
            assert(ids@ =~= spec_ids_list(pm.take((i + 1) as int)));
        }
        i += 1;
    }
    proof {
        assert(pm.take(pairs@.len() as int) =~= pm);
    }
    let mut s = "UPDATE ".to_owned();
    s.append(table);
    s.append(" SET page_views = CASE pages_id ");
    s.append(chain.as_str());
    s.append(" ELSE page_views END WHERE pages_id IN (");
    s.append(ids.as_str());
    crate::text::push_char(&mut s, ')');
    proof {
        assert(s@ =~= spec_case_when_update_sql(table@, pm));
    }
    s
}

/// A staged page together with the file it embeds, both waiting for their
/// surrogate keys.
#[derive(Debug)]
pub struct PageFile {
    pub page: Page,
    pub file: File,
}

/// The model of a staged pair.
#[verifier::ext_equal]
pub struct PageFileModel {
    pub page: PageModel,
    pub file: FileModel,
}

impl View for PageFile {
    type V = PageFileModel;

    open spec fn view(&self) -> PageFileModel {
        PageFileModel { page: self.page@, file: self.file@ }
    }
}

impl PageFile {
    /// Whether both surrogate keys are known, so the pair can be linked.
    pub fn is_valid(&self) -> (r: bool)
        ensures
            r == (self@.page.id is Some && self@.file.id is Some),
    {
        self.page.id.is_some() && self.file.id.is_some()
    }
}

pub open spec fn page_files_model(s: Seq<PageFile>) -> Seq<PageFileModel> {
    s.map_values(|p: PageFile| p@)
}

/// The id assigned to a file name: the last matching map entry.
pub open spec fn spec_file_id(map: Seq<(Seq<char>, int)>, name: Seq<char>) -> Option<int>
    decreases map.len(),
{
    if map.len() == 0 {
        None
    } else if map.last().0 == name {
        Some(map.last().1)
    } else {
        spec_file_id(map.drop_last(), name)
    }
}

pub open spec fn file_map_model(s: Seq<(String, usize)>) -> Seq<(Seq<char>, int)> {
    s.map_values(|p: (String, usize)| (p.0@, p.1 as int))
}

/// One pair after the file matching pass: a missing id filled in from the
/// map when the map knows the name.
pub open spec fn spec_assign_file(pf: PageFileModel, map: Seq<(Seq<char>, int)>) -> PageFileModel {
    if pf.file.id is None {
        match spec_file_id(map, pf.file.name) {
            Some(id) => PageFileModel {
                file: FileModel { id: Some(id), ..pf.file },
                ..pf
            },
            None => pf,
        }
    } else {
        pf
    }
}

pub open spec fn spec_assign_files(
    pfs: Seq<PageFileModel>,
    map: Seq<(Seq<char>, int)>,
) -> Seq<PageFileModel> {
    pfs.map_values(|pf: PageFileModel| spec_assign_file(pf, map))
}

/// The names still missing after the pass, in order, repeats kept.
pub open spec fn spec_missing_files(
    pfs: Seq<PageFileModel>,
    map: Seq<(Seq<char>, int)>,
) -> Seq<Seq<char>>
    decreases pfs.len(),
{
    if pfs.len() == 0 {
        Seq::empty()
    } else {
        let rest = spec_missing_files(pfs.drop_last(), map);
        let pf = pfs.last();
        if pf.file.id is None && spec_file_id(map, pf.file.name) is None {
            rest.push(pf.file.name)
        } else {
            rest
        }
    }
}

/// Looks the id of a file name up, last map entry winning.
pub fn file_id_of(map: &Vec<(String, usize)>, name: &str) -> (r: Option<usize>)
    ensures
        match r {
            Some(v) => spec_file_id(file_map_model(map@), name@) == Some(v as int),
            None => spec_file_id(file_map_model(map@), name@) is None,
        },
{
    let ghost mm = file_map_model(map@);
    let mut j: usize = map.len();
    proof {
        assert(mm.take(map@.len() as int) =~= mm);
    }
    while j > 0
        invariant
            j <= map@.len(),
            mm == file_map_model(map@),
            spec_file_id(mm, name@) == spec_file_id(mm.take(j as int), name@),
        decreases j,
    {
        j -= 1;
        let e = &map[j];
        proof {
            assert(mm[j as int] == (map@[j as int].0@, map@[j as int].1 as int));
            assert(mm.take((j + 1) as int).drop_last() =~= mm.take(j as int));
            assert(mm.take((j + 1) as int).last() == mm[j as int]);
        }
        if str_eq(e.0.as_str(), name) {
            return Some(e.1);
        }
    }
    proof {
        assert(mm.take(0) =~= Seq::<(Seq<char>, int)>::empty());
    }
    None
}

/// Matches the staged pairs against the ids the store handed back: every
/// pair whose file name the map knows gets its id; the names the map does
/// not know come back, to be created and matched again.
pub fn match_existing_files(page_files: &mut Vec<PageFile>, map: &Vec<(String, usize)>) -> (missing:
    Vec<String>)
    ensures
        page_files_model(final(page_files)@) == spec_assign_files(
            page_files_model(old(page_files)@),
            file_map_model(map@),
        ),
        crate::snapshot::strings_model(missing@) == spec_missing_files(
            page_files_model(old(page_files)@),
            file_map_model(map@),
        ),
{
    let ghost pm = page_files_model(page_files@);
    let ghost mm = file_map_model(map@);
    let ghost target = spec_assign_files(pm, mm);
    let n = page_files.len();
    let mut out: Vec<PageFile> = Vec::new();
    let mut missing: Vec<String> = Vec::new();
    let mut i: usize = 0;
    while i < n
        invariant
            n == page_files@.len(),
            i <= n,
            pm == page_files_model(page_files@),
            mm == file_map_model(map@),
            target == spec_assign_files(pm, mm),
            page_files_model(out@) == target.take(i as int),
            crate::snapshot::strings_model(missing@) == spec_missing_files(pm.take(i as int), mm),
        decreases n - i,
    {
        let pf = &page_files[i];
        proof {
            assert(pm[i as int] == page_files@[i as int]@);
            assert(target[i as int] == spec_assign_file(pm[i as int], mm));
            assert(pm.take((i + 1) as int).drop_last() =~= pm.take(i as int));
            assert(pm.take((i + 1) as int).last() == pm[i as int]);
        }
        let file_id = match pf.file.id {
            Some(id) => Some(id),
            None => {
                match file_id_of(map, pf.file.name.as_str()) {
                    Some(id) => Some(id),
                    None => {
                        let ghost prevm = missing@;
                        missing.push(pf.file.name.clone());
                        proof {
                            crate::snapshot::lemma_strings_model_push(
                                prevm,
                                missing@[prevm.len() as int],
                            );
                            assert(crate::snapshot::strings_model(missing@)
                                =~= spec_missing_files(pm.take((i + 1) as int), mm));
                        }
                        None
                    },
                }
            },
        };
        let copied = PageFile {
            page: Page {
                id: pf.page.id,
                site_id: pf.page.site_id,
                title: pf.page.title.clone(),
                namespace_id: pf.page.namespace_id,
            },
            file: File { id: file_id, name: pf.file.name.clone() },
        };
        proof {
            assert(copied@ =~= target[i as int]);
        }
        let ghost prevo = out@;
        out.push(copied);
        proof {
            assert(out@ == prevo.push(out@[prevo.len() as int]));
            assert(page_files_model(out@) =~~= page_files_model(prevo).push(
                out@[prevo.len() as int]@,
            ));
            assert(page_files_model(out@) =~= target.take((i + 1) as int));
            assert(crate::snapshot::strings_model(missing@) =~= spec_missing_files(
                pm.take((i + 1) as int),
                mm,
            ));
        }
        i += 1;
    }
    proof {
        assert(target.take(n as int) =~= target);
        assert(pm.take(n as int) =~= pm);
    }
    *page_files = out;
    missing
}

/// The valid pairs rendered into link rows: one
/// `(group_status, file, page)` triple per pair whose both keys are known.
pub open spec fn spec_file_pages_rows(
    pfs: Seq<PageFileModel>,
    group_status_id: int,
) -> Seq<(int, int, int)>
    decreases pfs.len(),
{
    if pfs.len() == 0 {
        Seq::empty()
    } else {
        let rest = spec_file_pages_rows(pfs.drop_last(), group_status_id);
        let pf = pfs.last();
        if pf.page.id is Some && pf.file.id is Some {
            rest.push((group_status_id, pf.file.id.unwrap(), pf.page.id.unwrap()))
        } else {
            rest
        }
    }
}

/// Renders the valid pairs into the triples of one view-data insert; a pair
/// that still misses a key is logged upstream and skipped.
pub fn insert_file_pages_rows(page_files: &Vec<PageFile>, group_status_id: usize) -> (r: Vec<
    (usize, usize, usize),
>)
    ensures
        r@.map_values(|t: (usize, usize, usize)| (t.0 as int, t.1 as int, t.2 as int))
            == spec_file_pages_rows(page_files_model(page_files@), group_status_id as int),
{
    let ghost pm = page_files_model(page_files@);
    let mut out: Vec<(usize, usize, usize)> = Vec::new();
    let mut i: usize = 0;
    while i < page_files.len()
        invariant
            i <= page_files@.len(),
            pm == page_files_model(page_files@),
            out@.map_values(|t: (usize, usize, usize)| (t.0 as int, t.1 as int, t.2 as int))
                == spec_file_pages_rows(pm.take(i as int), group_status_id as int),
        decreases page_files@.len() - i,
    {
        let pf = &page_files[i];
        proof {
            assert(pm[i as int] == page_files@[i as int]@);
            assert(pm.take((i + 1) as int).drop_last() =~= pm.take(i as int));
            assert(pm.take((i + 1) as int).last() == pm[i as int]);
        }
        match (pf.file.id, pf.page.id) {
            (Some(fid), Some(pid)) => {
                out.push((group_status_id, fid, pid));
                proof {
                    assert(out@.map_values(
                        |t: (usize, usize, usize)| (t.0 as int, t.1 as int, t.2 as int),
                    ) =~= spec_file_pages_rows(pm.take((i + 1) as int), group_status_id as int));
                }
            },
            _ => {
                proof {
                    assert(out@.map_values(
                        |t: (usize, usize, usize)| (t.0 as int, t.1 as int, t.2 as int),
                    ) =~= spec_file_pages_rows(pm.take((i + 1) as int), group_status_id as int));
                }
            },
        }
        i += 1;
    }
    proof {
        assert(pm.take(page_files@.len() as int) =~= pm);
    }
    out
}


/// One row of the page-key lookup: the natural key and the surrogate id the
/// store assigned it.
#[derive(Debug)]
pub struct PageIdRow {
    pub site_id: usize,
    pub title: String,
    pub namespace_id: i32,
    pub id: usize,
}

/// The model of a lookup row.
#[verifier::ext_equal]
pub struct PageIdRowModel {
    pub site_id: int,
    pub title: Seq<char>,
    pub namespace_id: int,
    pub id: int,
}

impl View for PageIdRow {
    type V = PageIdRowModel;

    open spec fn view(&self) -> PageIdRowModel {
        PageIdRowModel {
            site_id: self.site_id as int,
            title: self.title@,
            namespace_id: self.namespace_id as int,
            id: self.id as int,
        }
    }
}

pub open spec fn page_map_model(s: Seq<PageIdRow>) -> Seq<PageIdRowModel> {
    s.map_values(|p: PageIdRow| p@)
}

/// The id assigned to a page's natural key: the last matching map entry.
pub open spec fn spec_page_id(
    map: Seq<PageIdRowModel>,
    site_id: int,
    title: Seq<char>,
    namespace_id: int,
) -> Option<int>
    decreases map.len(),
{
    if map.len() == 0 {
        None
    } else if map.last().site_id == site_id && map.last().title == title
        && map.last().namespace_id == namespace_id {
        Some(map.last().id)
    } else {
        spec_page_id(map.drop_last(), site_id, title, namespace_id)
    }
}

/// Looks a page's id up by its natural key, last map entry winning.
pub fn page_id_of(map: &Vec<PageIdRow>, site_id: usize, title: &str, namespace_id: i32) -> (r:
    Option<usize>)
    ensures
        match r {
            Some(v) => spec_page_id(
                page_map_model(map@),
                site_id as int,
                title@,
                namespace_id as int,
            ) == Some(v as int),
            None => spec_page_id(
                page_map_model(map@),
                site_id as int,
                title@,
                namespace_id as int,
            ) is None,
        },
{
    let ghost mm = page_map_model(map@);
    let mut j: usize = map.len();
    proof {
        assert(mm.take(map@.len() as int) =~= mm);
    }
    while j > 0
        invariant
            j <= map@.len(),
            mm == page_map_model(map@),
            spec_page_id(mm, site_id as int, title@, namespace_id as int) == spec_page_id(
                mm.take(j as int),
                site_id as int,
                title@,
                namespace_id as int,
            ),
        decreases j,
    {
        j -= 1;
        let e = &map[j];
        proof {
            assert(mm[j as int] == map@[j as int]@);
            assert(mm.take((j + 1) as int).drop_last() =~= mm.take(j as int));
            assert(mm.take((j + 1) as int).last() == mm[j as int]);
        }
        if e.site_id == site_id && e.namespace_id == namespace_id && str_eq(e.title.as_str(), title)
            {
            return Some(e.id);
        }
    }
    proof {
        assert(mm.take(0) =~= Seq::<PageIdRowModel>::empty());
    }
    None
}

/// One pair after the page matching pass: a missing id filled in from the
/// map when the map knows the natural key.
pub open spec fn spec_assign_page(pf: PageFileModel, map: Seq<PageIdRowModel>) -> PageFileModel {
    if pf.page.id is None {
        match spec_page_id(map, pf.page.site_id, pf.page.title, pf.page.namespace_id) {
            Some(id) => PageFileModel { page: PageModel { id: Some(id), ..pf.page }, ..pf },
            None => pf,
        }
    } else {
        pf
    }
}

pub open spec fn spec_assign_pages(
    pfs: Seq<PageFileModel>,
    map: Seq<PageIdRowModel>,
) -> Seq<PageFileModel> {
    pfs.map_values(|pf: PageFileModel| spec_assign_page(pf, map))
}

/// Whether a page with the same natural key is already among the collected
/// ones.
pub open spec fn page_key_in(pages: Seq<PageModel>, p: PageModel) -> bool {
    exists|i: int|
        0 <= i < pages.len() && (#[trigger] pages[i]).site_id == p.site_id && pages[i].title
            == p.title && pages[i].namespace_id == p.namespace_id
}

/// The pages still missing after the pass, each natural key collected once.
pub open spec fn spec_missing_pages(
    pfs: Seq<PageFileModel>,
    map: Seq<PageIdRowModel>,
) -> Seq<PageModel>
    decreases pfs.len(),
{
    if pfs.len() == 0 {
        Seq::empty()
    } else {
        let rest = spec_missing_pages(pfs.drop_last(), map);
        let pf = pfs.last();
        if pf.page.id is None && spec_page_id(
            map,
            pf.page.site_id,
            pf.page.title,
            pf.page.namespace_id,
        ) is None && !page_key_in(rest, pf.page) {
            rest.push(pf.page)
        } else {
            rest
        }
    }
}

pub open spec fn pages_model(s: Seq<Page>) -> Seq<PageModel> {
    s.map_values(|p: Page| p@)
}

/// Matches the staged pairs against the page ids the store handed back:
/// every pair whose natural key the map knows gets its id; the keys the map
/// does not know come back once each, to be created and matched again.
pub fn match_existing_pages(page_files: &mut Vec<PageFile>, map: &Vec<PageIdRow>) -> (missing: Vec<
    Page,
>)
    ensures
        page_files_model(final(page_files)@) == spec_assign_pages(
            page_files_model(old(page_files)@),
            page_map_model(map@),
        ),
        pages_model(missing@) == spec_missing_pages(
            page_files_model(old(page_files)@),
            page_map_model(map@),
        ),
{
    let ghost pm = page_files_model(page_files@);
    let ghost mm = page_map_model(map@);
    let ghost target = spec_assign_pages(pm, mm);
    let n = page_files.len();
    let mut out: Vec<PageFile> = Vec::new();
    let mut missing: Vec<Page> = Vec::new();
    let mut i: usize = 0;
    while i < n
        invariant
            n == page_files@.len(),
            i <= n,
            pm == page_files_model(page_files@),
            mm == page_map_model(map@),
            target == spec_assign_pages(pm, mm),
            page_files_model(out@) == target.take(i as int),
            pages_model(missing@) == spec_missing_pages(pm.take(i as int), mm),
        decreases n - i,
    {
        let pf = &page_files[i];
        proof {
            assert(pm[i as int] == page_files@[i as int]@);
            assert(target[i as int] == spec_assign_page(pm[i as int], mm));
            assert(pm.take((i + 1) as int).drop_last() =~= pm.take(i as int));
            assert(pm.take((i + 1) as int).last() == pm[i as int]);
        }
        let page_id = match pf.page.id {
            Some(id) => Some(id),
            None => {
                match page_id_of(map, pf.page.site_id, pf.page.title.as_str(), pf.page.namespace_id)
                    {
                    Some(id) => Some(id),
                    None => {
                        let ghost miss = pages_model(missing@);
                        let mut seen = false;
                        let mut t: usize = 0;
                        while t < missing.len()
                            invariant
                                t <= missing@.len(),
                                miss == pages_model(missing@),
                                0 <= i < pm.len(),
                                pm[i as int] == page_files@[i as int]@,
                                pf == &page_files@[i as int],
                                !seen ==> forall|u: int|
                                    0 <= u < t ==> !((#[trigger] miss[u]).site_id
                                        == pm[i as int].page.site_id && miss[u].title
                                        == pm[i as int].page.title && miss[u].namespace_id
                                        == pm[i as int].page.namespace_id),
                                seen ==> page_key_in(miss, pm[i as int].page),
                            decreases missing@.len() - t,
                        {
                            let e = &missing[t];
                            proof {
                                assert(miss[t as int] == missing@[t as int]@);
                            }
                            if e.site_id == pf.page.site_id && e.namespace_id
                                == pf.page.namespace_id && str_eq(
                                e.title.as_str(),
                                pf.page.title.as_str(),
                            ) {
                                proof {
                                    assert(miss[t as int].site_id == pm[i as int].page.site_id
                                        && miss[t as int].title == pm[i as int].page.title
                                        && miss[t as int].namespace_id
                                        == pm[i as int].page.namespace_id);
                                }
                                seen = true;
                            }
                            t += 1;
                        }
                        if !seen {
                            let ghost prevm = missing@;
                            let copy = Page {
                                id: None,
                                site_id: pf.page.site_id,
                                title: pf.page.title.clone(),
                                namespace_id: pf.page.namespace_id,
                            };
                            proof {
                                assert(copy@ =~= pm[i as int].page);
                            }
                            missing.push(copy);
                            proof {
                                assert(missing@ == prevm.push(missing@[prevm.len() as int]));
                                assert(pages_model(missing@) =~~= pages_model(prevm).push(
                                    missing@[prevm.len() as int]@,
                                ));
                            }
                        }
                        proof {
                            assert(pages_model(missing@) =~= spec_missing_pages(
                                pm.take((i + 1) as int),
                                mm,
                            ));
                        }
                        None
                    },
                }
            },
        };
        let copied = PageFile {
            page: Page {
                id: page_id,
                site_id: pf.page.site_id,
                title: pf.page.title.clone(),
                namespace_id: pf.page.namespace_id,
            },
            file: File { id: pf.file.id, name: pf.file.name.clone() },
        };
        proof {
            assert(copied@ =~= target[i as int]);
        }
        let ghost prevo = out@;
        out.push(copied);
        proof {
            assert(out@ == prevo.push(out@[prevo.len() as int]));
            assert(page_files_model(out@) =~~= page_files_model(prevo).push(
                out@[prevo.len() as int]@,
            ));
            assert(page_files_model(out@) =~= target.take((i + 1) as int));
            assert(pages_model(missing@) =~= spec_missing_pages(pm.take((i + 1) as int), mm));
        }
        i += 1;
    }
    proof {
        assert(target.take(n as int) =~= target);
        assert(pm.take(n as int) =~= pm);
    }
    *page_files = out;
    missing
}

/// Stages `n` fresh file names in the shared store; names already present
/// are ignored.
pub fn create_files_sql(n: usize) -> (s: String)
    requires
        n >= 1,
    ensures
        s@ == "INSERT IGNORE INTO `files` (`name`) VALUES "@ + crate::sql::spec_get_placeholders(
            "(?),"@,
            n as nat,
        ),
{
    let mut s = "INSERT IGNORE INTO `files` (`name`) VALUES ".to_owned();
    let p = crate::sql::get_placeholders("(?),", n);
    match p {
        Ok(p) => {
            s.append(p.as_str());
        },
        Err(_) => {},
    }
    proof {
        assert(s@ =~= "INSERT IGNORE INTO `files` (`name`) VALUES "@
            + crate::sql::spec_get_placeholders("(?),"@, n as nat));
    }
    s
}

/// Selects the ids of `n` staged file names.
pub fn files_select_sql(n: usize) -> (s: String)
    ensures
        s@ == "SELECT `id`,`name` FROM `files` WHERE `name` IN ("@
            + crate::sql::spec_sql_placeholders(n as nat) + seq![')'],
{
    let mut s = "SELECT `id`,`name` FROM `files` WHERE `name` IN (".to_owned();
    let p = crate::sql::sql_placeholders(n);
    s.append(p.as_str());
    crate::text::push_char(&mut s, ')');
    proof {
        assert(s@ =~= "SELECT `id`,`name` FROM `files` WHERE `name` IN ("@
            + crate::sql::spec_sql_placeholders(n as nat) + seq![')']);
    }
    s
}

/// Stages `n` fresh pages in the shared store; keys already present are
/// ignored.
pub fn create_pages_sql(n: usize) -> (s: String)
    requires
        n >= 1,
    ensures
        s@ == "INSERT IGNORE INTO `pages` (`site`,`title`,`namespace_id`) VALUES "@
            + crate::sql::spec_get_placeholders("(?,?,?),"@, n as nat),
{
    let mut s = "INSERT IGNORE INTO `pages` (`site`,`title`,`namespace_id`) VALUES ".to_owned();
    let p = crate::sql::get_placeholders("(?,?,?),", n);
    match p {
        Ok(p) => {
            s.append(p.as_str());
        },
        Err(_) => {},
    }
    proof {
        assert(s@ =~= "INSERT IGNORE INTO `pages` (`site`,`title`,`namespace_id`) VALUES "@
            + crate::sql::spec_get_placeholders("(?,?,?),"@, n as nat));
    }
    s
}

/// `n` natural-key disjuncts of the page lookup.
pub open spec fn spec_page_disjuncts(n: nat) -> Seq<char>
    decreases n,
{
    if n == 0 {
        Seq::empty()
    } else if n == 1 {
        "(site=? AND title=? AND namespace_id=?)"@
    } else {
        spec_page_disjuncts((n - 1) as nat) + " OR "@ + "(site=? AND title=? AND namespace_id=?)"@
    }
}

/// Selects the ids of `n` staged pages by their natural keys.
pub fn pages_select_sql(n: usize) -> (s: String)
    ensures
        s@ == "SELECT `id`,`site`,`title`,`namespace_id` FROM `pages` WHERE "@
            + spec_page_disjuncts(n as nat),
{
    let mut s = "SELECT `id`,`site`,`title`,`namespace_id` FROM `pages` WHERE ".to_owned();
    if n == 0 {
        proof {
            assert(s@ =~= "SELECT `id`,`site`,`title`,`namespace_id` FROM `pages` WHERE "@
                + spec_page_disjuncts(0));
        }
        return s;
    }
    s.append("(site=? AND title=? AND namespace_id=?)");
    proof {
        assert(s@ =~= "SELECT `id`,`site`,`title`,`namespace_id` FROM `pages` WHERE "@
            + spec_page_disjuncts(1));
    }
    let mut i: usize = 1;
    while i < n
        invariant
            1 <= i <= n,
            s@ == "SELECT `id`,`site`,`title`,`namespace_id` FROM `pages` WHERE "@
                + spec_page_disjuncts(i as nat),
        decreases n - i,
    {
        s.append(" OR (site=? AND title=? AND namespace_id=?)");
        proof {
            reveal_strlit(" OR (site=? AND title=? AND namespace_id=?)");
            reveal_strlit(" OR ");
            reveal_strlit("(site=? AND title=? AND namespace_id=?)");
            assert(" OR (site=? AND title=? AND namespace_id=?)"@ =~= " OR "@
                + "(site=? AND title=? AND namespace_id=?)"@);
            assert(s@ =~= "SELECT `id`,`site`,`title`,`namespace_id` FROM `pages` WHERE "@
                + spec_page_disjuncts((i + 1) as nat));
        }
        i += 1;
    }
    s
}

/// Links `n` valid pairs into a month's view-data table; triples already
/// present are ignored by the unique key.
pub fn insert_file_pages_sql(ym: &YearMonth, n: usize) -> (s: String)
    requires
        ym.wf(),
        n >= 1,
    ensures
        s@ == "INSERT IGNORE INTO "@ + spec_viewdata_table(ym.spec_year(), ym.spec_month())
            + " (group_status_id, files_id, pages_id) VALUES "@
            + crate::sql::spec_get_placeholders("(?,?,?),"@, n as nat),
{
    let t = table_name(ym);
    let mut s = "INSERT IGNORE INTO ".to_owned();
    s.append(t.as_str());
    s.append(" (group_status_id, files_id, pages_id) VALUES ");
    let p = crate::sql::get_placeholders("(?,?,?),", n);
    match p {
        Ok(p) => {
            s.append(p.as_str());
        },
        Err(_) => {},
    }
    proof {
        assert(s@ =~= "INSERT IGNORE INTO "@ + spec_viewdata_table(ym.spec_year(), ym.spec_month())
            + " (group_status_id, files_id, pages_id) VALUES "@
            + crate::sql::spec_get_placeholders("(?,?,?),"@, n as nat));
    }
    s
}

} // verus!
