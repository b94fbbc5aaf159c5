//! The in-memory snapshot of one `(group, month)` job: staged files, view
//! rows, group-to-view links and the summary, with the storage contract
//! stated over a mathematical model.
//!
//! The storage layer persists this data outside the library; every mutating
//! operation here pins the new model to a function of the old one, so a
//! rerun from equal inputs yields an equal snapshot.

use crate::group_id::GroupId;
use crate::records::{FilePart, FilePartModel, RowGroup, RowGroupModel, ViewCount,
    ViewIdSiteIdTitle, ViewIdSiteIdTitleModel};
use crate::site::Site;
use crate::text::str_eq;
use crate::year_month::YearMonth;
use vstd::prelude::*;

verus! {

/// The model of a site row.
#[verifier::ext_equal]
pub struct SiteModel {
    pub id: int,
    pub grok_code: Option<Seq<char>>,
    pub server: Option<Seq<char>>,
    pub giu_code: Option<Seq<char>>,
    pub project: Option<Seq<char>>,
    pub language: Option<Seq<char>>,
    pub name: Option<Seq<char>>,
}

pub open spec fn opt_view(o: Option<String>) -> Option<Seq<char>> {
    match o {
        Some(s) => Some(s@),
        None => None,
    }
}

pub open spec fn site_model(s: Site) -> SiteModel {
    SiteModel {
        id: s.id as int,
        grok_code: opt_view(s.grok_code),
        server: opt_view(s.server),
        giu_code: opt_view(s.giu_code),
        project: opt_view(s.project),
        language: opt_view(s.language),
        name: opt_view(s.name),
    }
}

/// One row of the `views` table.
#[derive(Debug)]
pub struct ViewRow {
    pub id: usize,
    pub site: usize,
    pub title: String,
    pub month: u32,
    pub year: i32,
    pub done: u8,
    pub namespace_id: i32,
    pub page_id: usize,
    pub views: u64,
}

/// The model of a view row.
#[verifier::ext_equal]
pub struct ViewRowModel {
    pub id: int,
    pub site: int,
    pub title: Seq<char>,
    pub month: int,
    pub year: int,
    pub done: int,
    pub namespace_id: int,
    pub page_id: int,
    pub views: int,
}

impl View for ViewRow {
    type V = ViewRowModel;

    open spec fn view(&self) -> ViewRowModel {
        ViewRowModel {
            id: self.id as int,
            site: self.site as int,
            title: self.title@,
            month: self.month as int,
            year: self.year as int,
            done: self.done as int,
            namespace_id: self.namespace_id as int,
            page_id: self.page_id as int,
            views: self.views as int,
        }
    }
}

/// A view row the pipeline wants created: the key fields of a `views`
/// insert before an id is assigned.
#[derive(Debug)]
pub struct ViewCandidate {
    pub site_id: usize,
    pub title: String,
    pub namespace_id: i32,
    pub page_id: usize,
}

/// The model of a candidate: the view-row key it asks for.
#[verifier::ext_equal]
pub struct ViewKey {
    pub site: int,
    pub title: Seq<char>,
    pub namespace_id: int,
    pub page_id: int,
}

impl View for ViewCandidate {
    type V = ViewKey;

    open spec fn view(&self) -> ViewKey {
        ViewKey {
            site: self.site_id as int,
            title: self.title@,
            namespace_id: self.namespace_id as int,
            page_id: self.page_id as int,
        }
    }
}

pub open spec fn row_key(r: ViewRowModel) -> ViewKey {
    ViewKey { site: r.site, title: r.title, namespace_id: r.namespace_id, page_id: r.page_id }
}

pub open spec fn key_eq(a: ViewKey, b: ViewKey) -> bool {
    a.site == b.site && a.title == b.title && a.namespace_id == b.namespace_id && a.page_id
        == b.page_id
}

/// One link of the `group2view` table: file `image` caused the page behind
/// `view_id` to be attributed to the group status.
#[derive(Debug)]
pub struct Group2View {
    pub group_status_id: usize,
    pub view_id: usize,
    pub image: String,
}

#[verifier::ext_equal]
pub struct Group2ViewModel {
    pub group_status_id: int,
    pub view_id: int,
    pub image: Seq<char>,
}

impl View for Group2View {
    type V = Group2ViewModel;

    open spec fn view(&self) -> Group2ViewModel {
        Group2ViewModel {
            group_status_id: self.group_status_id as int,
            view_id: self.view_id as int,
            image: self.image@,
        }
    }
}

/// One per-site aggregate of the summary.
#[derive(Debug)]
pub struct Gs2Site {
    pub group_status_id: usize,
    pub site_id: usize,
    pub pages: usize,
    pub views: u64,
}

#[verifier::ext_equal]
pub struct Gs2SiteModel {
    pub group_status_id: int,
    pub site_id: int,
    pub pages: int,
    pub views: int,
}

impl View for Gs2Site {
    type V = Gs2SiteModel;

    open spec fn view(&self) -> Gs2SiteModel {
        Gs2SiteModel {
            group_status_id: self.group_status_id as int,
            site_id: self.site_id as int,
            pages: self.pages as int,
            views: self.views as int,
        }
    }
}

pub open spec fn strings_model(s: Seq<String>) -> Seq<Seq<char>> {
    s.map_values(|x: String| x@)
}

pub open spec fn views_model(s: Seq<ViewRow>) -> Seq<ViewRowModel> {
    s.map_values(|r: ViewRow| r@)
}

pub open spec fn g2v_model(s: Seq<Group2View>) -> Seq<Group2ViewModel> {
    s.map_values(|g: Group2View| g@)
}

pub open spec fn gs2_model(s: Seq<Gs2Site>) -> Seq<Gs2SiteModel> {
    s.map_values(|g: Gs2Site| g@)
}

pub open spec fn sites_model(s: Seq<Site>) -> Seq<SiteModel> {
    s.map_values(|x: Site| site_model(x))
}

pub proof fn lemma_strings_model_push(s: Seq<String>, x: String)
    ensures
        strings_model(s.push(x)) == strings_model(s).push(x@),
{
    assert(strings_model(s.push(x)) =~= strings_model(s).push(x@));
}

pub proof fn lemma_views_model_push(s: Seq<ViewRow>, x: ViewRow)
    ensures
        views_model(s.push(x)) == views_model(s).push(x@),
{
    assert(views_model(s.push(x)) =~= views_model(s).push(x@));
}

pub proof fn lemma_g2v_model_push(s: Seq<Group2View>, x: Group2View)
    ensures
        g2v_model(s.push(x)) == g2v_model(s).push(x@),
{
    assert(g2v_model(s.push(x)) =~= g2v_model(s).push(x@));
}

pub proof fn lemma_gs2_model_push(s: Seq<Gs2Site>, x: Gs2Site)
    ensures
        gs2_model(s.push(x)) == gs2_model(s).push(x@),
{
    assert(gs2_model(s.push(x)) =~= gs2_model(s).push(x@));
}

/// The model of a snapshot.
#[verifier::ext_equal]
pub struct SnapshotModel {
    pub group_id: int,
    pub year: int,
    pub month: int,
    pub group_status_id: int,
    pub status: Seq<char>,
    pub total_views: Option<int>,
    pub group: Option<RowGroupModel>,
    pub sites: Seq<SiteModel>,
    pub files: Seq<Seq<char>>,
    pub views: Seq<ViewRowModel>,
    pub group2view: Seq<Group2ViewModel>,
    pub gs2site: Seq<Gs2SiteModel>,
}

/// Well-formedness of the view rows: ids dense from one, outcome codes in
/// range, counts non-negative, every row carrying the snapshot's month, and
/// no two rows sharing a key.
pub open spec fn views_wf(views: Seq<ViewRowModel>, month: int, year: int) -> bool {
    &&& forall|i: int| 0 <= i < views.len() ==> (#[trigger] views[i]).id == i + 1
    &&& forall|i: int| 0 <= i < views.len() ==> 0 <= (#[trigger] views[i]).done <= 4
    &&& forall|i: int| 0 <= i < views.len() ==> (#[trigger] views[i]).views >= 0
    &&& forall|i: int|
        0 <= i < views.len() ==> ((#[trigger] views[i]).month == month && views[i].year == year)
    &&& forall|i: int, j: int|
        0 <= i < j < views.len() ==> !key_eq(
            row_key(#[trigger] views[i]),
            row_key(#[trigger] views[j]),
        )
}

impl SnapshotModel {
    /// Well-formedness of the whole snapshot: sound view rows and links
    /// that point at existing rows.
    pub open spec fn wf(&self) -> bool {
        &&& views_wf(self.views, self.month, self.year)
        &&& forall|i: int|
            0 <= i < self.group2view.len() ==> 1 <= (#[trigger] self.group2view[i]).view_id
                <= self.views.len()
    }
}

/// A freshly initialized snapshot: seeded sites, blank status, nothing
/// staged.
pub open spec fn spec_initialized(
    group_id: int,
    year: int,
    month: int,
    group_status_id: int,
    sites: Seq<SiteModel>,
) -> SnapshotModel {
    SnapshotModel {
        group_id,
        year,
        month,
        group_status_id,
        status: Seq::empty(),
        total_views: None,
        group: None,
        sites,
        files: Seq::empty(),
        views: Seq::empty(),
        group2view: Seq::empty(),
        gs2site: Seq::empty(),
    }
}

/// Whether some row carries the key.
pub open spec fn key_in_views(views: Seq<ViewRowModel>, k: ViewKey) -> bool {
    exists|i: int| 0 <= i < views.len() && key_eq(row_key(#[trigger] views[i]), k)
}

/// A fresh row for a candidate key, appended after `n` existing rows.
pub open spec fn fresh_row(k: ViewKey, n: int, month: int, year: int) -> ViewRowModel {
    ViewRowModel {
        id: n + 1,
        site: k.site,
        title: k.title,
        month,
        year,
        done: 0,
        namespace_id: k.namespace_id,
        page_id: k.page_id,
        views: 0,
    }
}

/// One candidate applied: appended as a fresh unresolved row unless its key
/// is already present.
pub open spec fn spec_add_candidate(
    views: Seq<ViewRowModel>,
    k: ViewKey,
    month: int,
    year: int,
) -> Seq<ViewRowModel> {
    if key_in_views(views, k) {
        views
    } else {
        views.push(fresh_row(k, views.len() as int, month, year))
    }
}

/// All candidates applied from left to right.
pub open spec fn spec_create_views(
    views: Seq<ViewRowModel>,
    cands: Seq<ViewKey>,
    month: int,
    year: int,
) -> Seq<ViewRowModel>
    decreases cands.len(),
{
    if cands.len() == 0 {
        views
    } else {
        spec_add_candidate(
            spec_create_views(views, cands.drop_last(), month, year),
            cands.last(),
            month,
            year,
        )
    }
}

pub open spec fn keys_model(cands: Seq<ViewCandidate>) -> Seq<ViewKey> {
    cands.map_values(|c: ViewCandidate| c@)
}

/// Applying candidates only appends: the old rows stay where they were, and
/// every appended row starts unresolved with a zero count.
pub proof fn lemma_create_views_grows(
    views: Seq<ViewRowModel>,
    cands: Seq<ViewKey>,
    month: int,
    year: int,
)
    ensures
        spec_create_views(views, cands, month, year).len() >= views.len(),
        forall|j: int|
            0 <= j < views.len() ==> #[trigger] spec_create_views(views, cands, month, year)[j]
                == views[j],
        forall|j: int|
            views.len() <= j < spec_create_views(views, cands, month, year).len() ==> ((
            #[trigger] spec_create_views(views, cands, month, year)[j]).done == 0
                && spec_create_views(views, cands, month, year)[j].views == 0),
    decreases cands.len(),
{
    if cands.len() > 0 {
        lemma_create_views_grows(views, cands.drop_last(), month, year);
    }
}

/// Applying candidates preserves well-formedness.
pub proof fn lemma_create_views_wf(
    views: Seq<ViewRowModel>,
    cands: Seq<ViewKey>,
    month: int,
    year: int,
)
    requires
        views_wf(views, month, year),
    ensures
        views_wf(spec_create_views(views, cands, month, year), month, year),
    decreases cands.len(),
{
    if cands.len() > 0 {
        lemma_create_views_wf(views, cands.drop_last(), month, year);
    }
}

/// After the batch, every candidate's key has a row.
pub proof fn lemma_create_views_present(
    views: Seq<ViewRowModel>,
    cands: Seq<ViewKey>,
    month: int,
    year: int,
)
    ensures
        forall|k: int|
            0 <= k < cands.len() ==> key_in_views(
                spec_create_views(views, cands, month, year),
                #[trigger] cands[k],
            ),
    decreases cands.len(),
{
    if cands.len() > 0 {
        lemma_create_views_present(views, cands.drop_last(), month, year);
        let pre = spec_create_views(views, cands.drop_last(), month, year);
        let post = spec_create_views(views, cands, month, year);
        let last = cands.last();
        if key_in_views(pre, last) {
            assert(post == pre);
        } else {
            assert(post == pre.push(fresh_row(last, pre.len() as int, month, year)));
            assert(key_eq(row_key(post[pre.len() as int]), last));
            assert(key_in_views(post, last));
        }
        assert forall|k: int| 0 <= k < cands.len() implies key_in_views(
            post,
            #[trigger] cands[k],
        ) by {
            if k < cands.len() - 1 {
                assert(cands.drop_last()[k] == cands[k]);
                assert(key_in_views(pre, cands[k]));
                let i = choose|i: int|
                    0 <= i < pre.len() && key_eq(row_key(#[trigger] pre[i]), cands[k]);
                if post != pre {
                    assert(post[i] == pre[i]);
                }
                assert(key_eq(row_key(post[i]), cands[k]));
            } else {
                assert(cands[k] == last);
            }
        }
    }
}

/// One view row mapped through the fetched count: resolved with the count.
pub open spec fn spec_update_row(r: ViewRowModel, view_id: int, count: int) -> ViewRowModel {
    if r.id == view_id {
        ViewRowModel { done: 1, views: count, ..r }
    } else {
        r
    }
}

pub open spec fn spec_update_views(views: Seq<ViewRowModel>, view_id: int, count: int) -> Seq<
    ViewRowModel,
> {
    views.map_values(|r: ViewRowModel| spec_update_row(r, view_id, count))
}

/// One view row marked done with an outcome code and a zero count.
pub open spec fn spec_done_row(r: ViewRowModel, view_id: int, code: int) -> ViewRowModel {
    if r.id == view_id {
        ViewRowModel { done: code, views: 0, ..r }
    } else {
        r
    }
}

pub open spec fn spec_mark_done(views: Seq<ViewRowModel>, view_id: int, code: int) -> Seq<
    ViewRowModel,
> {
    views.map_values(|r: ViewRowModel| spec_done_row(r, view_id, code))
}

/// A Main Page row zeroed; every other row kept.
pub open spec fn spec_reset_main_row(r: ViewRowModel) -> ViewRowModel {
    if r.title == "Main_Page"@ {
        ViewRowModel { views: 0, ..r }
    } else {
        r
    }
}

pub open spec fn spec_reset_main(views: Seq<ViewRowModel>) -> Seq<ViewRowModel> {
    views.map_values(|r: ViewRowModel| spec_reset_main_row(r))
}

/// The sum of the view counts of all rows.
pub open spec fn sum_views(views: Seq<ViewRowModel>) -> int
    decreases views.len(),
{
    if views.len() == 0 {
        0
    } else {
        sum_views(views.drop_last()) + views.last().views
    }
}

pub proof fn lemma_sum_views_take(views: Seq<ViewRowModel>, j: int)
    requires
        0 <= j < views.len(),
    ensures
        sum_views(views.take(j + 1)) == sum_views(views.take(j)) + views[j].views,
{
    assert(views.take(j + 1).drop_last() =~= views.take(j));
    assert(views.take(j + 1).last() == views[j]);
}

pub proof fn lemma_sum_views_nonneg(views: Seq<ViewRowModel>)
    requires
        forall|i: int| 0 <= i < views.len() ==> (#[trigger] views[i]).views >= 0,
    ensures
        sum_views(views) >= 0,
    decreases views.len(),
{
    if views.len() > 0 {
        assert(forall|i: int|
            0 <= i < views.drop_last().len() ==> (#[trigger] views.drop_last()[i]).views >= 0);
        lemma_sum_views_nonneg(views.drop_last());
    }
}

/// With non-negative counts the sum over a prefix never exceeds the sum
/// over the whole.
pub proof fn lemma_sum_views_take_le(views: Seq<ViewRowModel>, j: int)
    requires
        0 <= j <= views.len(),
        forall|i: int| 0 <= i < views.len() ==> (#[trigger] views[i]).views >= 0,
    ensures
        sum_views(views.take(j)) <= sum_views(views),
        sum_views(views.take(j)) >= 0,
    decreases views.len() - j,
{
    assert forall|i: int| 0 <= i < views.take(j).len() implies (#[trigger] views.take(
        j,
    )[i]).views >= 0 by {
        assert(views.take(j)[i] == views[i]);
    }
    lemma_sum_views_nonneg(views.take(j));
    if j == views.len() {
        assert(views.take(j) =~= views);
    } else {
        lemma_sum_views_take(views, j);
        lemma_sum_views_take_le(views, j + 1);
        assert(views[j].views >= 0);
    }
}

/// The page of `files` starting at `offset`, at most `batch` entries.
pub open spec fn spec_files_page(files: Seq<Seq<char>>, offset: int, batch: int) -> Seq<Seq<char>> {
    if offset >= files.len() {
        Seq::empty()
    } else if offset + batch <= files.len() {
        files.subrange(offset, offset + batch)
    } else {
        files.subrange(offset, files.len() as int)
    }
}

pub open spec fn spec_total_or_zero(m: SnapshotModel) -> int {
    match m.total_views {
        Some(v) => v,
        None => 0,
    }
}

/// The snapshot of one `(group, month)` job.
pub struct Snapshot {
    group_id: GroupId,
    ym: YearMonth,
    group_status_id: usize,
    status: String,
    total_views: Option<u64>,
    group: Option<RowGroup>,
    sites: Vec<Site>,
    files: Vec<String>,
    views: Vec<ViewRow>,
    group2view: Vec<Group2View>,
    gs2site: Vec<Gs2Site>,
}

impl View for Snapshot {
    type V = SnapshotModel;

    closed spec fn view(&self) -> SnapshotModel {
        SnapshotModel {
            group_id: self.group_id.spec_get(),
            year: self.ym.spec_year(),
            month: self.ym.spec_month(),
            group_status_id: self.group_status_id as int,
            status: self.status@,
            total_views: match self.total_views {
                Some(v) => Some(v as int),
                None => None,
            },
            group: match self.group {
                Some(ref g) => Some(g@),
                None => None,
            },
            sites: sites_model(self.sites@),
            files: strings_model(self.files@),
            views: views_model(self.views@),
            group2view: g2v_model(self.group2view@),
            gs2site: gs2_model(self.gs2site@),
        }
    }
}

impl Snapshot {
    /// The month field is a valid month.
    pub closed spec fn ym_ok(&self) -> bool {
        self.ym.wf()
    }

    /// The executable state matches its model's well-formedness and keeps
    /// the month valid.
    pub open spec fn inv(&self) -> bool {
        self@.wf() && self.ym_ok() && 2000 <= self@.year <= 2030 && 1 <= self@.month <= 12
    }

    /// Prepares a snapshot for a fresh run: the given sites are seeded and
    /// everything else starts empty, the status blank.
    pub fn new(group_id: GroupId, ym: YearMonth, group_status_id: usize, sites: Vec<Site>) -> (r:
        Self)
        requires
            ym.wf(),
        ensures
            r@ == spec_initialized(
                group_id.spec_get(),
                ym.spec_year(),
                ym.spec_month(),
                group_status_id as int,
                sites_model(sites@),
            ),
            r.inv(),
    {
        let ghost sm = sites_model(sites@);
        let r = Self {
            group_id,
            ym,
            group_status_id,
            status: String::new(),
            total_views: None,
            group: None,
            sites,
            files: Vec::new(),
            views: Vec::new(),
            group2view: Vec::new(),
            gs2site: Vec::new(),
        };
        proof {
            assert(r@ =~= spec_initialized(
                group_id.spec_get(),
                ym.spec_year(),
                ym.spec_month(),
                group_status_id as int,
                sm,
            ));
        }
        r
    }

    pub fn group_status_id(&self) -> (r: usize)
        ensures
            r == self@.group_status_id,
    {
        self.group_status_id
    }

    pub fn ym(&self) -> (r: &YearMonth)
        ensures
            r.spec_year() == self@.year,
            r.spec_month() == self@.month,
    {
        &self.ym
    }

    pub fn group_id(&self) -> (r: GroupId)
        ensures
            r.spec_get() == self@.group_id,
    {
        self.group_id
    }

    pub fn load_sites(&self) -> (r: &Vec<Site>)
        ensures
            sites_model(r@) == self@.sites,
    {
        &self.sites
    }

    /// Seeds the group's own row: the published snapshot carries the
    /// group's metadata alongside its views.
    pub fn seed_group(&mut self, group: RowGroup)
        requires
            old(self).inv(),
        ensures
            final(self)@ == (SnapshotModel { group: Some(group@), ..old(self)@ }),
            final(self).inv(),
    {
        let ghost gm = group@;
        self.group = Some(group);
        proof {
            assert(self@ =~= (SnapshotModel { group: Some(gm), ..old(self)@ }));
        }
    }

    /// The seeded group row, when one was seeded.
    pub fn group(&self) -> (r: &Option<RowGroup>)
        ensures
            match r {
                Some(g) => self@.group == Some(g@),
                None => self@.group is None,
            },
    {
        &self.group
    }

    /// Returns the staging set to empty; the rest of the snapshot stays.
    pub fn delete_all_files(&mut self)
        requires
            old(self).inv(),
        ensures
            final(self)@ == (SnapshotModel { files: Seq::empty(), ..old(self)@ }),
            final(self).inv(),
    {
        self.files = Vec::new();
        proof {
            assert(self@.files =~= Seq::<Seq<char>>::empty());
            assert(self@ =~= (SnapshotModel { files: Seq::empty(), ..old(self)@ }));
        }
    }

    /// Appends a batch of file names to the staging set, in order.
    pub fn insert_files_batch(&mut self, batch: &Vec<String>)
        requires
            old(self).inv(),
        ensures
            final(self)@ == (SnapshotModel {
                files: old(self)@.files + strings_model(batch@),
                ..old(self)@
            }),
            final(self).inv(),
    {
        let ghost pre = self@.files;
        let mut i: usize = 0;
        while i < batch.len()
            invariant
                i <= batch@.len(),
                self@ == (SnapshotModel {
                    files: pre + strings_model(batch@).take(i as int),
                    ..old(self)@
                }),
            decreases batch@.len() - i,
        {
            let ghost prev = self.files@;
            let f = batch[i].clone();
            proof {
                assert(f == batch@[i as int]);
            }
            self.files.push(f);
            proof {
                lemma_strings_model_push(prev, batch@[i as int]);
                assert(strings_model(batch@)[i as int] == batch@[i as int]@);
                assert(self@.files =~= pre + strings_model(batch@).take((i + 1) as int));
                assert(self@ =~= (SnapshotModel {
                    files: pre + strings_model(batch@).take((i + 1) as int),
                    ..old(self)@
                }));
            }
            i += 1;
        }
        proof {
            assert(strings_model(batch@).take(batch@.len() as int) =~= strings_model(batch@));
            assert(self@ =~= (SnapshotModel {
                files: pre + strings_model(batch@),
                ..old(self)@
            }));
        }
    }

    /// One restartable page over the staging set: up to `batch_size` names
    /// starting at `offset`.
    pub fn load_files_batch(&self, offset: usize, batch_size: usize) -> (r: Vec<String>)
        ensures
            strings_model(r@) == spec_files_page(self@.files, offset as int, batch_size as int),
    {
        let mut out: Vec<String> = Vec::new();
        let mut i: usize = offset;
        if offset >= self.files.len() {
            proof {
                assert(strings_model(out@) =~= spec_files_page(
                    self@.files,
                    offset as int,
                    batch_size as int,
                ));
            }
            return out;
        }
        while i < self.files.len() && i - offset < batch_size
            invariant
                offset <= i <= self.files@.len(),
                offset < self.files@.len(),
                i - offset <= batch_size,
                out@.len() == i - offset,
                strings_model(out@) == self@.files.subrange(offset as int, i as int),
            decreases self.files@.len() - i,
        {
            let ghost prev = out@;
            let f = self.files[i].clone();
            proof {
                assert(f == self.files@[i as int]);
                assert(self@.files[i as int] == self.files@[i as int]@);
            }
            out.push(f);
            proof {
                lemma_strings_model_push(prev, self.files@[i as int]);
                assert(strings_model(out@) =~= self@.files.subrange(
                    offset as int,
                    (i + 1) as int,
                ));
            }
            i += 1;
        }
        proof {
            assert(strings_model(out@) =~= spec_files_page(
                self@.files,
                offset as int,
                batch_size as int,
            ));
        }
        out
    }

    /// Clears the view rows; the links must have been cleared already, so
    /// that none is left dangling.
    pub fn delete_views(&mut self)
        requires
            old(self).inv(),
            old(self)@.group2view.len() == 0,
        ensures
            final(self)@ == (SnapshotModel { views: Seq::empty(), ..old(self)@ }),
            final(self).inv(),
    {
        self.views = Vec::new();
        proof {
            assert(self@.views =~= Seq::<ViewRowModel>::empty());
            assert(self@ =~= (SnapshotModel { views: Seq::empty(), ..old(self)@ }));
        }
    }

    /// Clears the group-to-view links.
    pub fn delete_group2view(&mut self)
        requires
            old(self).inv(),
        ensures
            final(self)@ == (SnapshotModel { group2view: Seq::empty(), ..old(self)@ }),
            final(self).inv(),
    {
        self.group2view = Vec::new();
        proof {
            assert(self@.group2view =~= Seq::<Group2ViewModel>::empty());
            assert(self@ =~= (SnapshotModel { group2view: Seq::empty(), ..old(self)@ }));
        }
    }

    /// Upserts a batch of view placeholders: each candidate key gets a row
    /// with `done` and `views` at zero; keys already present are ignored.
    pub fn create_views_in_db(&mut self, cands: &Vec<ViewCandidate>)
        requires
            old(self).inv(),
            old(self)@.views.len() + cands@.len() < usize::MAX,
        ensures
            final(self)@ == (SnapshotModel {
                views: spec_create_views(
                    old(self)@.views,
                    keys_model(cands@),
                    old(self)@.month,
                    old(self)@.year,
                ),
                ..old(self)@
            }),
            final(self).inv(),
    {
        let ghost pre = self@.views;
        let ghost keys = keys_model(cands@);
        let ghost month = self@.month;
        let ghost year = self@.year;
        let mut i: usize = 0;
        while i < cands.len()
            invariant
                i <= cands@.len(),
                keys == keys_model(cands@),
                month == old(self)@.month,
                year == old(self)@.year,
                pre == old(self)@.views,
                pre.len() + cands@.len() < usize::MAX,
                self@ == (SnapshotModel {
                    views: spec_create_views(pre, keys.take(i as int), month, year),
                    ..old(self)@
                }),
                self.views@.len() <= pre.len() + i,
                old(self).inv(),
            decreases cands@.len() - i,
        {
            let ghost cur = self@.views;
            let c = &cands[i];
            proof {
                assert(keys[i as int] == cands@[i as int]@);
            }
            let n = self.views.len();
            let mut found = false;
            let mut j: usize = 0;
            while j < n
                invariant
                    n == self.views@.len(),
                    j <= n,
                    cur == self@.views,
                    cur.len() == n,
                    c == &cands@[i as int],
                    !found ==> forall|t: int|
                        0 <= t < j ==> !key_eq(row_key(#[trigger] cur[t]), cands@[i as int]@),
                    found ==> key_in_views(cur, cands@[i as int]@),
                decreases n - j,
            {
                let r = &self.views[j];
                proof {
                    assert(cur[j as int] == self.views@[j as int]@);
                }
                if r.site == c.site_id && r.page_id == c.page_id && r.namespace_id
                    == c.namespace_id && str_eq(r.title.as_str(), c.title.as_str()) {
                    proof {
                        assert(key_eq(row_key(cur[j as int]), cands@[i as int]@));
                    }
                    found = true;
                }
                j += 1;
            }
            if !found {
                let ghost prevv = self.views@;
                let row = ViewRow {
                    id: n + 1,
                    site: c.site_id,
                    title: c.title.clone(),
                    month: self.ym.month(),
                    year: self.ym.year(),
                    done: 0,
                    namespace_id: c.namespace_id,
                    page_id: c.page_id,
                    views: 0,
                };
                proof {
                    assert(!key_in_views(cur, cands@[i as int]@));
                    assert(row@ =~= fresh_row(cands@[i as int]@, cur.len() as int, month, year));
                }
                let ghost rowm = row@;
                self.views.push(row);
                proof {
                    assert(self.views@ == prevv.push(self.views@[prevv.len() as int]));
                    lemma_views_model_push(prevv, self.views@[prevv.len() as int]);
                    assert(self@.views =~= cur.push(rowm));
                }
            }
            proof {
                assert(keys.take((i + 1) as int).drop_last() =~= keys.take(i as int));
                assert(keys.take((i + 1) as int).last() == keys[i as int]);
                assert(self@.views =~= spec_add_candidate(cur, keys[i as int], month, year));
                assert(self@ =~= (SnapshotModel {
                    views: spec_create_views(pre, keys.take((i + 1) as int), month, year),
                    ..old(self)@
                }));
            }
            i += 1;
        }
        proof {
            assert(keys.take(cands@.len() as int) =~= keys);
            assert(self@ =~= (SnapshotModel {
                views: spec_create_views(pre, keys, month, year),
                ..old(self)@
            }));
            lemma_create_views_wf(pre, keys, month, year);
            lemma_create_views_grows(pre, keys, month, year);
        }
    }
}

/// Whether some part asks for this row's `(site, title)` key.
pub open spec fn part_match(r: ViewRowModel, parts: Seq<FilePartModel>) -> bool {
    exists|p: int|
        0 <= p < parts.len() && (#[trigger] parts[p]).site_id == r.site && parts[p].page_title
            == r.title
}

pub open spec fn lookup_item(r: ViewRowModel) -> ViewIdSiteIdTitleModel {
    ViewIdSiteIdTitleModel { view_id: r.id, site_id: r.site, title: r.title }
}

/// The `(id, site, title)` of every row matching some part on
/// `(site, title)`, in row order.
pub open spec fn spec_viewid_lookup(
    views: Seq<ViewRowModel>,
    parts: Seq<FilePartModel>,
) -> Seq<ViewIdSiteIdTitleModel>
    decreases views.len(),
{
    if views.len() == 0 {
        Seq::empty()
    } else {
        let rest = spec_viewid_lookup(views.drop_last(), parts);
        if part_match(views.last(), parts) {
            rest.push(lookup_item(views.last()))
        } else {
            rest
        }
    }
}

pub open spec fn vists_model(s: Seq<ViewIdSiteIdTitle>) -> Seq<ViewIdSiteIdTitleModel> {
    s.map_values(|x: ViewIdSiteIdTitle| x@)
}

pub proof fn lemma_vists_model_push(s: Seq<ViewIdSiteIdTitle>, x: ViewIdSiteIdTitle)
    ensures
        vists_model(s.push(x)) == vists_model(s).push(x@),
{
    assert(vists_model(s.push(x)) =~= vists_model(s).push(x@));
}

pub open spec fn parts_model(s: Seq<FilePart>) -> Seq<FilePartModel> {
    s.map_values(|p: FilePart| p@)
}

/// Whether the link triple is already present.
pub open spec fn g2v_in(g2vs: Seq<Group2ViewModel>, l: Group2ViewModel) -> bool {
    exists|i: int| 0 <= i < g2vs.len() && #[trigger] g2vs[i] == l
}

/// The links appended from left to right, each skipped when its triple is
/// already present.
pub open spec fn spec_insert_g2v(
    g2vs: Seq<Group2ViewModel>,
    links: Seq<Group2ViewModel>,
) -> Seq<Group2ViewModel>
    decreases links.len(),
{
    if links.len() == 0 {
        g2vs
    } else {
        let rest = spec_insert_g2v(g2vs, links.drop_last());
        if g2v_in(rest, links.last()) {
            rest
        } else {
            rest.push(links.last())
        }
    }
}

pub open spec fn links_model(s: Seq<Group2View>) -> Seq<Group2ViewModel> {
    s.map_values(|g: Group2View| g@)
}

/// Inserting links keeps every link's target within bounds.
pub proof fn lemma_insert_g2v_bounds(
    g2vs: Seq<Group2ViewModel>,
    links: Seq<Group2ViewModel>,
    n: int,
)
    requires
        forall|i: int| 0 <= i < g2vs.len() ==> 1 <= (#[trigger] g2vs[i]).view_id <= n,
        forall|i: int| 0 <= i < links.len() ==> 1 <= (#[trigger] links[i]).view_id <= n,
    ensures
        forall|i: int|
            0 <= i < spec_insert_g2v(g2vs, links).len() ==> 1 <= (#[trigger] spec_insert_g2v(
                g2vs,
                links,
            )[i]).view_id <= n,
    decreases links.len(),
{
    if links.len() > 0 {
        assert(forall|i: int|
            0 <= i < links.drop_last().len() ==> 1 <= (#[trigger] links.drop_last()[i]).view_id
                <= n);
        lemma_insert_g2v_bounds(g2vs, links.drop_last(), n);
        let rest = spec_insert_g2v(g2vs, links.drop_last());
        if !g2v_in(rest, links.last()) {
            assert(links.last() == links[links.len() - 1]);
            let post = rest.push(links.last());
            assert forall|i: int| 0 <= i < post.len() implies 1 <= (#[trigger] post[i]).view_id
                <= n by {
                if i < rest.len() {
                    assert(post[i] == rest[i]);
                } else {
                    assert(post[i] == links.last());
                }
            }
        }
    }
}

/// The site with the given id, first match in seeding order.
pub open spec fn spec_find_site(sites: Seq<SiteModel>, id: int) -> Option<SiteModel>
    decreases sites.len(),
{
    if sites.len() == 0 {
        None
    } else if sites[0].id == id {
        Some(sites[0])
    } else {
        spec_find_site(sites.drop_first(), id)
    }
}

pub proof fn lemma_find_site_skip(sites: Seq<SiteModel>, id: int, i: int)
    requires
        0 <= i <= sites.len(),
        forall|j: int| 0 <= j < i ==> (#[trigger] sites[j]).id != id,
    ensures
        spec_find_site(sites, id) == spec_find_site(sites.skip(i), id),
    decreases i,
{
    if i == 0 {
        assert(sites.skip(0) =~= sites);
    } else {
        assert(sites[0].id != id);
        assert(sites.drop_first() =~= sites.skip(1));
        assert(spec_find_site(sites, id) == spec_find_site(sites.drop_first(), id));
        assert forall|j: int| 0 <= j < i - 1 implies (#[trigger] sites.skip(1)[j]).id != id by {
            assert(sites.skip(1)[j] == sites[j + 1]);
        }
        lemma_find_site_skip(sites.skip(1), id, i - 1);
        assert(sites.skip(1).skip(i - 1) =~= sites.skip(i));
        assert(spec_find_site(sites.skip(1).skip(i - 1), id) == spec_find_site(
            sites.skip(i),
            id,
        ));
    }
}

/// One row of the resolution feed: the unresolved row joined with its site.
pub open spec fn todo_item(r: ViewRowModel, s: SiteModel) -> crate::records::ViewCountModel {
    crate::records::ViewCountModel {
        view_id: r.id,
        title: r.title,
        namespace_id: r.namespace_id,
        grok_code: s.grok_code,
        server: s.server,
        done: r.done,
        site_id: r.site,
    }
}

/// Every unresolved row with a known site, joined, in row order.
pub open spec fn spec_todo_all(views: Seq<ViewRowModel>, sites: Seq<SiteModel>) -> Seq<
    crate::records::ViewCountModel,
>
    decreases views.len(),
{
    if views.len() == 0 {
        Seq::empty()
    } else {
        let rest = spec_todo_all(views.drop_last(), sites);
        if views.last().done == 0 && spec_find_site(sites, views.last().site) is Some {
            rest.push(todo_item(views.last(), spec_find_site(sites, views.last().site).unwrap()))
        } else {
            rest
        }
    }
}

/// The resolution feed, cut to the batch size.
pub open spec fn spec_view_counts_todo(
    views: Seq<ViewRowModel>,
    sites: Seq<SiteModel>,
    batch: int,
) -> Seq<crate::records::ViewCountModel> {
    let all = spec_todo_all(views, sites);
    if batch <= all.len() {
        all.take(batch)
    } else {
        all
    }
}

pub open spec fn vcs_model(s: Seq<ViewCount>) -> Seq<crate::records::ViewCountModel> {
    s.map_values(|x: ViewCount| x@)
}

pub proof fn lemma_vcs_model_push(s: Seq<ViewCount>, x: ViewCount)
    ensures
        vcs_model(s.push(x)) == vcs_model(s).push(x@),
{
    assert(vcs_model(s.push(x)) =~= vcs_model(s).push(x@));
}

/// The sum of the counts of one site's rows never exceeds the sum over all
/// rows.
pub proof fn lemma_site_sum_le(views: Seq<ViewRowModel>, id: int)
    requires
        forall|i: int| 0 <= i < views.len() ==> (#[trigger] views[i]).views >= 0,
    ensures
        0 <= site_views_sum(views, id) <= sum_views(views),
    decreases views.len(),
{
    if views.len() > 0 {
        assert(forall|i: int|
            0 <= i < views.drop_last().len() ==> (#[trigger] views.drop_last()[i]).views >= 0);
        lemma_site_sum_le(views.drop_last(), id);
    }
}

/// The distinct-page count of one site never exceeds the row count.
pub proof fn lemma_pages_le(views: Seq<ViewRowModel>, id: int)
    ensures
        0 <= site_pages_count(views, id) <= views.len(),
    decreases views.len(),
{
    if views.len() > 0 {
        lemma_pages_le(views.drop_last(), id);
    }
}

/// The sum of the counts of the rows of one site.
pub open spec fn site_views_sum(views: Seq<ViewRowModel>, site_id: int) -> int
    decreases views.len(),
{
    if views.len() == 0 {
        0
    } else {
        site_views_sum(views.drop_last(), site_id) + if views.last().site == site_id {
            views.last().views
        } else {
            0int
        }
    }
}

/// The number of distinct pages among the rows of one site: rows that no
/// earlier row repeats on `(site, page)`.
pub open spec fn site_pages_count(views: Seq<ViewRowModel>, site_id: int) -> int
    decreases views.len(),
{
    if views.len() == 0 {
        0
    } else {
        site_pages_count(views.drop_last(), site_id) + if views.last().site == site_id && !(
        exists|j: int|
            0 <= j < views.len() - 1 && (#[trigger] views[j]).site == site_id && views[j].page_id
                == views.last().page_id) {
            1int
        } else {
            0int
        }
    }
}

pub open spec fn site_has_rows(views: Seq<ViewRowModel>, site_id: int) -> bool {
    exists|i: int| 0 <= i < views.len() && (#[trigger] views[i]).site == site_id
}

/// The per-site aggregates, in the order the sites were seeded; sites
/// without rows get no entry.
pub open spec fn spec_gs2site(
    views: Seq<ViewRowModel>,
    sites: Seq<SiteModel>,
    group_status_id: int,
) -> Seq<Gs2SiteModel>
    decreases sites.len(),
{
    if sites.len() == 0 {
        Seq::empty()
    } else {
        let rest = spec_gs2site(views, sites.drop_last(), group_status_id);
        if site_has_rows(views, sites.last().id) {
            rest.push(
                Gs2SiteModel {
                    group_status_id,
                    site_id: sites.last().id,
                    pages: site_pages_count(views, sites.last().id),
                    views: site_views_sum(views, sites.last().id),
                },
            )
        } else {
            rest
        }
    }
}

/// The sealed snapshot: complete status, exact total, rebuilt per-site
/// aggregates.
pub open spec fn spec_summarized(m: SnapshotModel, group_status_id: int) -> SnapshotModel {
    SnapshotModel {
        status: "VIEW DATA COMPLETE"@,
        total_views: Some(sum_views(m.views)),
        gs2site: spec_gs2site(m.views, m.sites, group_status_id),
        ..m
    }
}

/// Law: the summary seals the snapshot with the total equal to the sum of
/// the view counts over all its rows, and with the complete status; the
/// transition itself is only offered while no row is unresolved, by the
/// precondition of the summary step.
pub proof fn lemma_summary_total_is_sum(m: SnapshotModel, group_status_id: int)
    ensures
        spec_summarized(m, group_status_id).total_views == Some(sum_views(m.views)),
        spec_summarized(m, group_status_id).status == "VIEW DATA COMPLETE"@,
        spec_summarized(m, group_status_id).views == m.views,
{
}

impl Snapshot {
    /// Reverse lookup: the `(id, site, title)` of every row whose
    /// `(site, title)` key some part asks for, in row order.
    pub fn get_viewid_site_id_title(&self, parts: &Vec<FilePart>) -> (r: Vec<ViewIdSiteIdTitle>)
        ensures
            vists_model(r@) == spec_viewid_lookup(self@.views, parts_model(parts@)),
    {
        let ghost pre = self@.views;
        let ghost pm = parts_model(parts@);
        let mut out: Vec<ViewIdSiteIdTitle> = Vec::new();
        let n = self.views.len();
        let mut i: usize = 0;
        while i < n
            invariant
                n == self.views@.len(),
                i <= n,
                pre == views_model(self.views@),
                pm == parts_model(parts@),
                vists_model(out@) == spec_viewid_lookup(pre.take(i as int), pm),
            decreases n - i,
        {
            let r = &self.views[i];
            proof {
                assert(pre[i as int] == self.views@[i as int]@);
            }
            let mut matched = false;
            let mut p: usize = 0;
            while p < parts.len()
                invariant
                    p <= parts@.len(),
                    pm == parts_model(parts@),
                    r == &self.views@[i as int],
                    0 <= i < pre.len(),
                    pre[i as int] == self.views@[i as int]@,
                    !matched ==> forall|t: int|
                        0 <= t < p ==> !((#[trigger] pm[t]).site_id == pre[i as int].site
                            && pm[t].page_title == pre[i as int].title),
                    matched ==> part_match(pre[i as int], pm),
                decreases parts@.len() - p,
            {
                let q = &parts[p];
                proof {
                    assert(pm[p as int] == parts@[p as int]@);
                }
                if q.site_id == r.site && str_eq(q.page_title.as_str(), r.title.as_str()) {
                    proof {
                        assert(pm[p as int].site_id == pre[i as int].site && pm[p as int].page_title
                            == pre[i as int].title);
                    }
                    matched = true;
                }
                p += 1;
            }
            if matched {
                let ghost prev = out@;
                let item = ViewIdSiteIdTitle::new(r.view_row_id(), r.site, r.title.clone());
                proof {
                    assert(item@ =~= lookup_item(pre[i as int]));
                }
                let ghost im = item@;
                out.push(item);
                proof {
                    assert(out@ == prev.push(out@[prev.len() as int]));
                    lemma_vists_model_push(prev, out@[prev.len() as int]);
                    assert(vists_model(out@) =~= spec_viewid_lookup(pre.take(i as int), pm).push(
                        im,
                    ));
                }
            } else {
                proof {
                    assert(!part_match(pre[i as int], pm));
                }
            }
            proof {
                assert(pre.take((i + 1) as int).drop_last() =~= pre.take(i as int));
                assert(pre.take((i + 1) as int).last() == pre[i as int]);
                assert(vists_model(out@) =~= spec_viewid_lookup(pre.take((i + 1) as int), pm));
            }
            i += 1;
        }
        proof {
            assert(pre.take(n as int) =~= pre);
        }
        out
    }

    /// Links group status, view rows and originating files; a triple already
    /// present is ignored.
    pub fn insert_group2view(&mut self, links: &Vec<Group2View>)
        requires
            old(self).inv(),
            forall|i: int|
                0 <= i < links@.len() ==> 1 <= (#[trigger] links@[i]).view_id <= old(
                    self,
                )@.views.len(),
        ensures
            final(self)@ == (SnapshotModel {
                group2view: spec_insert_g2v(old(self)@.group2view, links_model(links@)),
                ..old(self)@
            }),
            final(self).inv(),
    {
        let ghost pre = self@.group2view;
        let ghost lm = links_model(links@);
        let mut i: usize = 0;
        while i < links.len()
            invariant
                i <= links@.len(),
                lm == links_model(links@),
                pre == old(self)@.group2view,
                self@ == (SnapshotModel {
                    group2view: spec_insert_g2v(pre, lm.take(i as int)),
                    ..old(self)@
                }),
            decreases links@.len() - i,
        {
            let ghost cur = self@.group2view;
            let l = &links[i];
            proof {
                assert(lm[i as int] == links@[i as int]@);
            }
            let n = self.group2view.len();
            let mut present = false;
            let mut j: usize = 0;
            while j < n
                invariant
                    n == self.group2view@.len(),
                    j <= n,
                    cur == self@.group2view,
                    cur.len() == n,
                    l == &links@[i as int],
                    !present ==> forall|t: int| 0 <= t < j ==> #[trigger] cur[t] != links@[i as int]@,
                    present ==> g2v_in(cur, links@[i as int]@),
                decreases n - j,
            {
                let g = &self.group2view[j];
                proof {
                    assert(cur[j as int] == self.group2view@[j as int]@);
                }
                if g.group_status_id == l.group_status_id && g.view_id == l.view_id && str_eq(
                    g.image.as_str(),
                    l.image.as_str(),
                ) {
                    proof {
                        assert(cur[j as int] =~= links@[i as int]@);
                    }
                    present = true;
                }
                j += 1;
            }
            if !present {
                let ghost prevv = self.group2view@;
                let entry = Group2View {
                    group_status_id: l.group_status_id,
                    view_id: l.view_id,
                    image: l.image.clone(),
                };
                proof {
                    assert(entry@ =~= links@[i as int]@);
                    assert(!g2v_in(cur, links@[i as int]@));
                }
                self.group2view.push(entry);
                proof {
                    assert(self.group2view@ == prevv.push(self.group2view@[prevv.len() as int]));
                    lemma_g2v_model_push(prevv, self.group2view@[prevv.len() as int]);
                    assert(self@.group2view =~= cur.push(links@[i as int]@));
                }
            }
            proof {
                assert(lm.take((i + 1) as int).drop_last() =~= lm.take(i as int));
                assert(lm.take((i + 1) as int).last() == lm[i as int]);
                assert(self@.group2view =~= spec_insert_g2v(pre, lm.take((i + 1) as int)));
                assert(self@ =~= (SnapshotModel {
                    group2view: spec_insert_g2v(pre, lm.take((i + 1) as int)),
                    ..old(self)@
                }));
            }
            i += 1;
        }
        proof {
            assert(lm.take(links@.len() as int) =~= lm);
            assert(self@ =~= (SnapshotModel {
                group2view: spec_insert_g2v(pre, lm),
                ..old(self)@
            }));
            assert(forall|t: int| 0 <= t < lm.len() ==> 1 <= (#[trigger] lm[t]).view_id
                <= old(self)@.views.len());
            lemma_insert_g2v_bounds(pre, lm, old(self)@.views.len() as int);
        }
    }

    /// Marks a view row resolved with its fetched count; an unknown id
    /// changes nothing.
    pub fn update_view_count(&mut self, view_id: usize, view_count: u64)
        requires
            old(self).inv(),
        ensures
            final(self)@ == (SnapshotModel {
                views: spec_update_views(old(self)@.views, view_id as int, view_count as int),
                ..old(self)@
            }),
            final(self).inv(),
    {
        let ghost pre = self@.views;
        let ghost target = spec_update_views(pre, view_id as int, view_count as int);
        let n = self.views.len();
        let mut out: Vec<ViewRow> = Vec::new();
        let mut j: usize = 0;
        while j < n
            invariant
                n == self.views@.len(),
                j <= n,
                pre == views_model(self.views@),
                target == spec_update_views(pre, view_id as int, view_count as int),
                views_model(out@) == target.take(j as int),
            decreases n - j,
        {
            let ghost prev = out@;
            let r = &self.views[j];
            proof {
                assert(pre[j as int] == self.views@[j as int]@);
                assert(target[j as int] == spec_update_row(
                    pre[j as int],
                    view_id as int,
                    view_count as int,
                ));
            }
            let row = if r.view_row_id() == view_id {
                ViewRow {
                    id: r.id,
                    site: r.site,
                    title: r.title.clone(),
                    month: r.month,
                    year: r.year,
                    done: 1,
                    namespace_id: r.namespace_id,
                    page_id: r.page_id,
                    views: view_count,
                }
            } else {
                ViewRow {
                    id: r.id,
                    site: r.site,
                    title: r.title.clone(),
                    month: r.month,
                    year: r.year,
                    done: r.done,
                    namespace_id: r.namespace_id,
                    page_id: r.page_id,
                    views: r.views,
                }
            };
            proof {
                assert(row@ =~= target[j as int]);
            }
            out.push(row);
            proof {
                assert(out@ == prev.push(out@[prev.len() as int]));
                lemma_views_model_push(prev, out@[prev.len() as int]);
                assert(views_model(out@) =~= target.take((j + 1) as int));
            }
            j += 1;
        }
        self.views = out;
        proof {
            assert(target.take(n as int) =~= target);
            assert(self@ =~= (SnapshotModel { views: target, ..old(self)@ }));
            assert forall|t: int| 0 <= t < target.len() implies row_key(#[trigger] target[t])
                == row_key(pre[t]) && target[t].id == pre[t].id && target[t].month == pre[t].month
                && target[t].year == pre[t].year && 0 <= target[t].done <= 4 && target[t].views
                >= 0 by {
                assert(target[t] == spec_update_row(pre[t], view_id as int, view_count as int));
            }
        }
    }

    /// Marks a view row done with an outcome code and a zero count; an
    /// unknown id changes nothing.
    pub fn view_done(&mut self, view_id: usize, done: u8)
        requires
            old(self).inv(),
            done <= 4,
        ensures
            final(self)@ == (SnapshotModel {
                views: spec_mark_done(old(self)@.views, view_id as int, done as int),
                ..old(self)@
            }),
            final(self).inv(),
    {
        let ghost pre = self@.views;
        let ghost target = spec_mark_done(pre, view_id as int, done as int);
        let n = self.views.len();
        let mut out: Vec<ViewRow> = Vec::new();
        let mut j: usize = 0;
        while j < n
            invariant
                n == self.views@.len(),
                j <= n,
                pre == views_model(self.views@),
                target == spec_mark_done(pre, view_id as int, done as int),
                views_model(out@) == target.take(j as int),
            decreases n - j,
        {
            let ghost prev = out@;
            let r = &self.views[j];
            proof {
                assert(pre[j as int] == self.views@[j as int]@);
                assert(target[j as int] == spec_done_row(pre[j as int], view_id as int, done as int));
            }
            let row = if r.view_row_id() == view_id {
                ViewRow {
                    id: r.id,
                    site: r.site,
                    title: r.title.clone(),
                    month: r.month,
                    year: r.year,
                    done,
                    namespace_id: r.namespace_id,
                    page_id: r.page_id,
                    views: 0,
                }
            } else {
                ViewRow {
                    id: r.id,
                    site: r.site,
                    title: r.title.clone(),
                    month: r.month,
                    year: r.year,
                    done: r.done,
                    namespace_id: r.namespace_id,
                    page_id: r.page_id,
                    views: r.views,
                }
            };
            proof {
                assert(row@ =~= target[j as int]);
            }
            out.push(row);
            proof {
                assert(out@ == prev.push(out@[prev.len() as int]));
                lemma_views_model_push(prev, out@[prev.len() as int]);
                assert(views_model(out@) =~= target.take((j + 1) as int));
            }
            j += 1;
        }
        self.views = out;
        proof {
            assert(target.take(n as int) =~= target);
            assert(self@ =~= (SnapshotModel { views: target, ..old(self)@ }));
            assert forall|t: int| 0 <= t < target.len() implies row_key(#[trigger] target[t])
                == row_key(pre[t]) && target[t].id == pre[t].id && target[t].month == pre[t].month
                && target[t].year == pre[t].year && 0 <= target[t].done <= 4 && target[t].views
                >= 0 by {
                assert(target[t] == spec_done_row(pre[t], view_id as int, done as int));
            }
        }
    }

    /// Zeroes the count of every Main Page row, so the home pages cannot
    /// dominate the totals.
    pub fn reset_main_page_view_count(&mut self)
        requires
            old(self).inv(),
        ensures
            final(self)@ == (SnapshotModel {
                views: spec_reset_main(old(self)@.views),
                ..old(self)@
            }),
            final(self).inv(),
    {
        let ghost pre = self@.views;
        let ghost target = spec_reset_main(pre);
        let n = self.views.len();
        let mut out: Vec<ViewRow> = Vec::new();
        let mut j: usize = 0;
        while j < n
            invariant
                n == self.views@.len(),
                j <= n,
                pre == views_model(self.views@),
                target == spec_reset_main(pre),
                views_model(out@) == target.take(j as int),
            decreases n - j,
        {
            let ghost prev = out@;
            let r = &self.views[j];
            proof {
                assert(pre[j as int] == self.views@[j as int]@);
                assert(target[j as int] == spec_reset_main_row(pre[j as int]));
            }
            let row = if str_eq(r.title.as_str(), "Main_Page") {
                ViewRow {
                    id: r.id,
                    site: r.site,
                    title: r.title.clone(),
                    month: r.month,
                    year: r.year,
                    done: r.done,
                    namespace_id: r.namespace_id,
                    page_id: r.page_id,
                    views: 0,
                }
            } else {
                ViewRow {
                    id: r.id,
                    site: r.site,
                    title: r.title.clone(),
                    month: r.month,
                    year: r.year,
                    done: r.done,
                    namespace_id: r.namespace_id,
                    page_id: r.page_id,
                    views: r.views,
                }
            };
            proof {
                assert(row@ =~= target[j as int]);
            }
            out.push(row);
            proof {
                assert(out@ == prev.push(out@[prev.len() as int]));
                lemma_views_model_push(prev, out@[prev.len() as int]);
                assert(views_model(out@) =~= target.take((j + 1) as int));
            }
            j += 1;
        }
        self.views = out;
        proof {
            assert(target.take(n as int) =~= target);
            assert(self@ =~= (SnapshotModel { views: target, ..old(self)@ }));
            assert forall|t: int| 0 <= t < target.len() implies row_key(#[trigger] target[t])
                == row_key(pre[t]) && target[t].id == pre[t].id && target[t].month == pre[t].month
                && target[t].year == pre[t].year && 0 <= target[t].done <= 4 && target[t].views
                >= 0 by {
                assert(target[t] == spec_reset_main_row(pre[t]));
            }
        }
    }

    /// Fetches up to `batch_size` unresolved view rows, each joined with its
    /// site, in row order.
    pub fn get_view_counts_todo(&self, batch_size: usize) -> (r: Vec<ViewCount>)
        ensures
            vcs_model(r@) == spec_view_counts_todo(self@.views, self@.sites, batch_size as int),
    {
        let ghost pre = self@.views;
        let ghost sm = self@.sites;
        let mut out: Vec<ViewCount> = Vec::new();
        let n = self.views.len();
        let mut i: usize = 0;
        while i < n
            invariant
                n == self.views@.len(),
                i <= n,
                pre == views_model(self.views@),
                sm == sites_model(self.sites@),
                vcs_model(out@) == spec_todo_all(pre.take(i as int), sm),
            decreases n - i,
        {
            let r = &self.views[i];
            proof {
                assert(pre[i as int] == self.views@[i as int]@);
            }
            if r.done == 0 {
                match self.find_site_index(r.site) {
                    Some(ix) => {
                        let ghost prev = out@;
                        let s = &self.sites[ix];
                        let item = ViewCount {
                            view_id: r.id,
                            title: r.title.clone(),
                            namespace_id: r.namespace_id,
                            grok_code: clone_opt(&s.grok_code),
                            server: clone_opt(&s.server),
                            done: r.done,
                            site_id: r.site,
                        };
                        proof {
                            assert(sm[ix as int] == site_model(self.sites@[ix as int]));
                            assert(item@ =~= todo_item(pre[i as int], sm[ix as int]));
                        }
                        let ghost im = item@;
                        out.push(item);
                        proof {
                            assert(out@ == prev.push(out@[prev.len() as int]));
                            lemma_vcs_model_push(prev, out@[prev.len() as int]);
                            assert(vcs_model(out@) =~= spec_todo_all(pre.take(i as int), sm).push(
                                im,
                            ));
                        }
                    },
                    None => {
                    },
                }
            }
            proof {
                assert(pre.take((i + 1) as int).drop_last() =~= pre.take(i as int));
                assert(pre.take((i + 1) as int).last() == pre[i as int]);
                assert(vcs_model(out@) =~= spec_todo_all(pre.take((i + 1) as int), sm));
            }
            i += 1;
        }
        proof {
            assert(pre.take(n as int) =~= pre);
        }
        let ghost all = spec_todo_all(pre, sm);
        if batch_size < out.len() {
            let ghost whole = out@;
            out.truncate(batch_size);
            proof {
                assert(out@ =~= whole.subrange(0, batch_size as int));
                assert(vcs_model(out@) =~= vcs_model(whole).take(batch_size as int));
            }
        }
        proof {
            assert(vcs_model(out@) =~= spec_view_counts_todo(pre, sm, batch_size as int));
        }
        out
    }

    /// The index of the site with this id, first in seeding order.
    fn find_site_index(&self, id: usize) -> (r: Option<usize>)
        ensures
            match r {
                Some(ix) => ix < self.sites@.len() && spec_find_site(self@.sites, id as int)
                    == Some(sites_model(self.sites@)[ix as int]),
                None => spec_find_site(self@.sites, id as int) is None,
            },
    {
        let ghost sm = self@.sites;
        let n = self.sites.len();
        let mut j: usize = 0;
        while j < n
            invariant
                n == self.sites@.len(),
                j <= n,
                sm == sites_model(self.sites@),
                forall|t: int| 0 <= t < j ==> (#[trigger] sm[t]).id != id,
            decreases n - j,
        {
            proof {
                assert(sm[j as int] == site_model(self.sites@[j as int]));
            }
            if self.sites[j].id == id {
                proof {
                    lemma_find_site_skip(sm, id as int, j as int);
                    assert(sm.skip(j as int)[0] == sm[j as int]);
                    assert(spec_find_site(sm.skip(j as int), id as int) == Some(sm[j as int]));
                }
                return Some(j);
            }
            j += 1;
        }
        proof {
            lemma_find_site_skip(sm, id as int, n as int);
            assert(sm.skip(n as int) =~= Seq::<SiteModel>::empty());
        }
        None
    }

    /// Writes the per-site aggregates and seals the status with the exact
    /// total: the sum of the counts over all view rows. Every row must be
    /// resolved, and the total must fit the machine word.
    pub fn add_summary_statistics(&mut self, group_status_id: usize)
        requires
            old(self).inv(),
            forall|i: int| 0 <= i < old(self)@.views.len() ==> (#[trigger] old(
                self,
            )@.views[i]).done != 0,
            sum_views(old(self)@.views) <= u64::MAX,
        ensures
            final(self)@ == spec_summarized(old(self)@, group_status_id as int),
            final(self).inv(),
    {
        let ghost pre = self@.views;
        let ghost sm = self@.sites;
        let n = self.views.len();

        let mut total: u64 = 0;
        let mut j: usize = 0;
        while j < n
            invariant
                n == self.views@.len(),
                j <= n,
                pre == views_model(self.views@),
                forall|i: int| 0 <= i < pre.len() ==> (#[trigger] pre[i]).views >= 0,
                sum_views(pre) <= u64::MAX,
                total == sum_views(pre.take(j as int)),
            decreases n - j,
        {
            proof {
                assert(pre[j as int] == self.views@[j as int]@);
                lemma_sum_views_take(pre, j as int);
                lemma_sum_views_take_le(pre, j + 1 as int);
            }
            total = total + self.views[j].views;
            j += 1;
        }
        proof {
            assert(pre.take(n as int) =~= pre);
        }

        let mut stats: Vec<Gs2Site> = Vec::new();
        let ns = self.sites.len();
        let mut k: usize = 0;
        while k < ns
            invariant
                ns == self.sites@.len(),
                n == self.views@.len(),
                pre == views_model(self.views@),
                sm == sites_model(self.sites@),
                k <= ns,
                forall|i: int| 0 <= i < pre.len() ==> (#[trigger] pre[i]).views >= 0,
                sum_views(pre) <= u64::MAX,
                gs2_model(stats@) == spec_gs2site(pre, sm.take(k as int), group_status_id as int),
            decreases ns - k,
        {
            let site_id = self.sites[k].id;
            proof {
                assert(sm[k as int] == site_model(self.sites@[k as int]));
            }
            let mut has = false;
            let mut sum: u64 = 0;
            let mut pages: usize = 0;
            let mut j2: usize = 0;
            while j2 < n
                invariant
                    n == self.views@.len(),
                    j2 <= n,
                    pre == views_model(self.views@),
                    site_id as int == sm[k as int].id,
                    0 <= k < sm.len(),
                    forall|i: int| 0 <= i < pre.len() ==> (#[trigger] pre[i]).views >= 0,
                    sum_views(pre) <= u64::MAX,
                    has == site_has_rows(pre.take(j2 as int), site_id as int),
                    sum == site_views_sum(pre.take(j2 as int), site_id as int),
                    pages == site_pages_count(pre.take(j2 as int), site_id as int),
                    pages <= j2,
                decreases n - j2,
            {
                let r = &self.views[j2];
                proof {
                    assert(pre[j2 as int] == self.views@[j2 as int]@);
                    assert(pre.take((j2 + 1) as int).drop_last() =~= pre.take(j2 as int));
                    assert(pre.take((j2 + 1) as int).last() == pre[j2 as int]);
                }
                if r.site == site_id {
                    proof {
                        assert(site_has_rows(pre.take((j2 + 1) as int), site_id as int));
                        lemma_site_sum_le(pre, site_id as int);
                        lemma_site_take_bounds(pre, site_id as int, j2 as int);
                    }
                    has = true;
                    sum = sum + r.views;
                    let rpage = r.page_id;
                    let mut dup = false;
                    let mut t: usize = 0;
                    while t < j2
                        invariant
                            t <= j2,
                            j2 < n,
                            n == self.views@.len(),
                            pre == views_model(self.views@),
                            0 <= j2 < pre.len(),
                            rpage as int == pre[j2 as int].page_id,
                            !dup ==> forall|u: int|
                                0 <= u < t ==> !((#[trigger] pre[u]).site == site_id as int
                                    && pre[u].page_id == pre[j2 as int].page_id),
                            dup ==> exists|u: int|
                                0 <= u < j2 && (#[trigger] pre[u]).site == site_id as int
                                    && pre[u].page_id == pre[j2 as int].page_id,
                        decreases j2 - t,
                    {
                        let e = &self.views[t];
                        proof {
                            assert(pre[t as int] == self.views@[t as int]@);
                        }
                        if e.site == site_id && e.page_id == rpage {
                            proof {
                                assert(pre[t as int].site == site_id as int && pre[t as int].page_id
                                    == pre[j2 as int].page_id);
                            }
                            dup = true;
                        } else {
                            proof {
                                assert(!(pre[t as int].site == site_id as int
                                    && pre[t as int].page_id == pre[j2 as int].page_id));
                            }
                        }
                        t += 1;
                    }
                    if !dup {
                        pages = pages + 1;
                    }
                    proof {
                        assert(forall|u: int|
                            0 <= u < j2 ==> #[trigger] pre.take((j2 + 1) as int)[u] == pre[u]);
                        if dup {
                            let u = choose|u: int|
                                0 <= u < j2 && (#[trigger] pre[u]).site == site_id as int
                                    && pre[u].page_id == pre[j2 as int].page_id;
                            assert(pre.take((j2 + 1) as int)[u].site == site_id as int
                                && pre.take((j2 + 1) as int)[u].page_id == pre.take(
                                (j2 + 1) as int,
                            ).last().page_id);
                        }
                        assert(pages == site_pages_count(pre.take((j2 + 1) as int), site_id as int));
                    }
                } else {
                    proof {
                        assert(has == site_has_rows(pre.take((j2 + 1) as int), site_id as int));
                    }
                }
                j2 += 1;
            }
            proof {
                assert(pre.take(n as int) =~= pre);
                assert(sm.take((k + 1) as int).drop_last() =~= sm.take(k as int));
                assert(sm.take((k + 1) as int).last() == sm[k as int]);
            }
            if has {
                let ghost prevs = stats@;
                let entry = Gs2Site { group_status_id, site_id, pages, views: sum };
                proof {
                    assert(entry@ =~= (Gs2SiteModel {
                        group_status_id: group_status_id as int,
                        site_id: sm[k as int].id,
                        pages: site_pages_count(pre, sm[k as int].id),
                        views: site_views_sum(pre, sm[k as int].id),
                    }));
                }
                let ghost em = entry@;
                stats.push(entry);
                proof {
                    assert(stats@ == prevs.push(stats@[prevs.len() as int]));
                    lemma_gs2_model_push(prevs, stats@[prevs.len() as int]);
                    assert(gs2_model(stats@) =~= spec_gs2site(
                        pre,
                        sm.take(k as int),
                        group_status_id as int,
                    ).push(em));
                }
            }
            proof {
                assert(gs2_model(stats@) =~= spec_gs2site(
                    pre,
                    sm.take((k + 1) as int),
                    group_status_id as int,
                ));
            }
            k += 1;
        }
        proof {
            assert(sm.take(ns as int) =~= sm);
        }
        self.gs2site = stats;
        self.status = "VIEW DATA COMPLETE".to_owned();
        self.total_views = Some(total);
        proof {
            assert(self@ =~= spec_summarized(old(self)@, group_status_id as int));
        }
    }

    /// Reads the sealed total; a snapshot without one reports zero.
    pub fn get_total_views(&self) -> (r: u64)
        ensures
            r as int == spec_total_or_zero(self@),
    {
        match self.total_views {
            Some(v) => v,
            None => 0,
        }
    }

    /// The view rows, in id order.
    pub fn views(&self) -> (r: &Vec<ViewRow>)
        ensures
            views_model(r@) == self@.views,
    {
        &self.views
    }

    /// The group-to-view links, in insertion order.
    pub fn group2view(&self) -> (r: &Vec<Group2View>)
        ensures
            g2v_model(r@) == self@.group2view,
    {
        &self.group2view
    }

    /// The per-site aggregates of the summary.
    pub fn gs2site(&self) -> (r: &Vec<Gs2Site>)
        ensures
            gs2_model(r@) == self@.gs2site,
    {
        &self.gs2site
    }

    /// The status line of the snapshot.
    pub fn status(&self) -> (r: &String)
        ensures
            r@ == self@.status,
    {
        &self.status
    }
}

impl ViewRow {
    /// The row's assigned id.
    pub fn view_row_id(&self) -> (r: usize)
        ensures
            r as int == self@.id,
    {
        self.id
    }
}

/// Clones an optional string, value for value.
pub fn clone_opt(o: &Option<String>) -> (r: Option<String>)
    ensures
        r == o,
{
    match o {
        Some(s) => Some(s.clone()),
        None => None,
    }
}

/// Bounds for one site's partial sums: the site sum over a prefix stays
/// within the sum over all rows.
pub proof fn lemma_site_take_bounds(views: Seq<ViewRowModel>, id: int, j: int)
    requires
        0 <= j < views.len(),
        forall|i: int| 0 <= i < views.len() ==> (#[trigger] views[i]).views >= 0,
    ensures
        site_views_sum(views.take(j + 1), id) == site_views_sum(views.take(j), id) + if views[j].site
            == id {
            views[j].views
        } else {
            0int
        },
        site_views_sum(views.take(j + 1), id) <= sum_views(views),
        site_views_sum(views.take(j), id) >= 0,
{
    assert(views.take(j + 1).drop_last() =~= views.take(j));
    assert(views.take(j + 1).last() == views[j]);
    assert forall|i: int| 0 <= i < views.take(j + 1).len() implies (#[trigger] views.take(
        j + 1,
    )[i]).views >= 0 by {
        assert(views.take(j + 1)[i] == views[i]);
    }
    lemma_site_sum_le_gen(views.take(j + 1), id);
    assert forall|i: int| 0 <= i < views.take(j).len() implies (#[trigger] views.take(
        j,
    )[i]).views >= 0 by {
        assert(views.take(j)[i] == views[i]);
    }
    lemma_site_sum_le_gen(views.take(j), id);
    lemma_sum_views_take_le(views, j + 1);
    lemma_sum_take_site_le(views, j + 1, id);
}

/// For any sequence with non-negative counts, one site's sum lies between
/// zero and the total.
pub proof fn lemma_site_sum_le_gen(views: Seq<ViewRowModel>, id: int)
    requires
        forall|i: int| 0 <= i < views.len() ==> (#[trigger] views[i]).views >= 0,
    ensures
        0 <= site_views_sum(views, id) <= sum_views(views),
    decreases views.len(),
{
    if views.len() > 0 {
        assert(forall|i: int|
            0 <= i < views.drop_last().len() ==> (#[trigger] views.drop_last()[i]).views >= 0);
        lemma_site_sum_le_gen(views.drop_last(), id);
    }
}

/// One site's sum over a prefix stays within the total over all rows.
pub proof fn lemma_sum_take_site_le(views: Seq<ViewRowModel>, j: int, id: int)
    requires
        0 <= j <= views.len(),
        forall|i: int| 0 <= i < views.len() ==> (#[trigger] views[i]).views >= 0,
    ensures
        site_views_sum(views.take(j), id) <= sum_views(views),
{
    assert forall|i: int| 0 <= i < views.take(j).len() implies (#[trigger] views.take(
        j,
    )[i]).views >= 0 by {
        assert(views.take(j)[i] == views[i]);
    }
    lemma_site_sum_le_gen(views.take(j), id);
    lemma_sum_views_take_le(views, j);
}



/// Keys equal to a third key are equal to each other.
pub proof fn lemma_key_eq_trans(a: ViewKey, b: ViewKey, c: ViewKey)
    requires
        key_eq(a, c),
        key_eq(b, c),
    ensures
        key_eq(a, b),
{
}

/// Law: after a batch of candidates is upserted into a well-formed
/// snapshot, each candidate's key has exactly one view row carrying it.
pub proof fn lemma_candidate_has_exactly_one_row(
    views: Seq<ViewRowModel>,
    cands: Seq<ViewKey>,
    month: int,
    year: int,
    k: int,
)
    requires
        views_wf(views, month, year),
        0 <= k < cands.len(),
    ensures
        ({
            let post = spec_create_views(views, cands, month, year);
            exists|i: int|
                0 <= i < post.len() && key_eq(row_key(#[trigger] post[i]), cands[k]) && (forall|
                    j: int,
                |
                    0 <= j < post.len() && key_eq(row_key(#[trigger] post[j]), cands[k]) ==> j
                        == i)
        }),
{
    lemma_create_views_present(views, cands, month, year);
    lemma_create_views_wf(views, cands, month, year);
    let post = spec_create_views(views, cands, month, year);
    assert(key_in_views(post, cands[k]));
    let i = choose|i: int| 0 <= i < post.len() && key_eq(row_key(#[trigger] post[i]), cands[k]);
    assert forall|j: int|
        0 <= j < post.len() && key_eq(row_key(#[trigger] post[j]), cands[k]) implies j == i by {
        if j != i {
            lemma_key_eq_trans(row_key(post[i]), row_key(post[j]), cands[k]);
        }
    }
}

/// Every row that matches some part appears in the reverse lookup.
pub proof fn lemma_lookup_complete(
    views: Seq<ViewRowModel>,
    parts: Seq<FilePartModel>,
    i: int,
)
    requires
        0 <= i < views.len(),
        part_match(views[i], parts),
    ensures
        exists|q: int|
            0 <= q < spec_viewid_lookup(views, parts).len() && #[trigger] spec_viewid_lookup(
                views,
                parts,
            )[q] == lookup_item(views[i]),
    decreases views.len(),
{
    let found = spec_viewid_lookup(views, parts);
    let rest = spec_viewid_lookup(views.drop_last(), parts);
    if i == views.len() - 1 {
        assert(views.last() == views[i]);
        assert(found == rest.push(lookup_item(views[i])));
        assert(found[rest.len() as int] == lookup_item(views[i]));
    } else {
        assert(views.drop_last()[i] == views[i]);
        lemma_lookup_complete(views.drop_last(), parts, i);
        let q = choose|q: int|
            0 <= q < rest.len() && #[trigger] rest[q] == lookup_item(views.drop_last()[i]);
        if part_match(views.last(), parts) {
            assert(found[q] == rest[q]);
        } else {
            assert(found == rest);
        }
    }
}

/// Every entry of the reverse lookup stems from a row that matches some
/// part on `(site, title)`.
pub proof fn lemma_lookup_sound(views: Seq<ViewRowModel>, parts: Seq<FilePartModel>, q: int)
    requires
        0 <= q < spec_viewid_lookup(views, parts).len(),
    ensures
        exists|p: int|
            0 <= p < parts.len() && (#[trigger] parts[p]).site_id == spec_viewid_lookup(
                views,
                parts,
            )[q].site_id && parts[p].page_title == spec_viewid_lookup(views, parts)[q].title,
    decreases views.len(),
{
    let found = spec_viewid_lookup(views, parts);
    if views.len() > 0 {
        let rest = spec_viewid_lookup(views.drop_last(), parts);
        if part_match(views.last(), parts) && q == rest.len() {
            assert(found[q] == lookup_item(views.last()));
            let p = choose|p: int|
                0 <= p < parts.len() && (#[trigger] parts[p]).site_id == views.last().site
                    && parts[p].page_title == views.last().title;
            assert(parts[p].site_id == found[q].site_id && parts[p].page_title == found[q].title);
        } else {
            assert(found[q] == rest[q]);
            lemma_lookup_sound(views.drop_last(), parts, q);
        }
    }
}

/// Law: upserting the view placeholders of a batch of parts and then
/// reverse-looking the same parts up composes to the identity on the
/// `(site, title)` key set: every part's key comes back, and nothing else.
pub proof fn lemma_create_then_lookup_identity(
    views: Seq<ViewRowModel>,
    cands: Seq<ViewKey>,
    parts: Seq<FilePartModel>,
    month: int,
    year: int,
)
    requires
        views_wf(views, month, year),
        cands.len() == parts.len(),
        forall|i: int|
            0 <= i < parts.len() ==> (#[trigger] cands[i]).site == parts[i].site_id
                && cands[i].title == parts[i].page_title,
    ensures
        ({
            let post = spec_create_views(views, cands, month, year);
            let found = spec_viewid_lookup(post, parts);
            &&& forall|p: int|
                0 <= p < parts.len() ==> exists|q: int|
                    0 <= q < found.len() && (#[trigger] found[q]).site_id == (
                    #[trigger] parts[p]).site_id && found[q].title == parts[p].page_title
            &&& forall|q: int|
                0 <= q < found.len() ==> exists|p: int|
                    0 <= p < parts.len() && (#[trigger] parts[p]).site_id == (
                    #[trigger] found[q]).site_id && parts[p].page_title == found[q].title
        }),
{
    let post = spec_create_views(views, cands, month, year);
    let found = spec_viewid_lookup(post, parts);
    lemma_create_views_present(views, cands, month, year);
    assert forall|p: int| 0 <= p < parts.len() implies exists|q: int|
        0 <= q < found.len() && (#[trigger] found[q]).site_id == (#[trigger] parts[p]).site_id
            && found[q].title == parts[p].page_title by {
        assert(key_in_views(post, cands[p]));
        let i = choose|i: int| 0 <= i < post.len() && key_eq(row_key(#[trigger] post[i]), cands[p]);
        assert(post[i].site == parts[p].site_id && post[i].title == parts[p].page_title);
        assert(part_match(post[i], parts));
        lemma_lookup_complete(post, parts, i);
        let q = choose|q: int|
            0 <= q < found.len() && #[trigger] found[q] == lookup_item(post[i]);
        assert(found[q].site_id == parts[p].site_id && found[q].title == parts[p].page_title);
    }
    assert forall|q: int| 0 <= q < found.len() implies exists|p: int|
        0 <= p < parts.len() && (#[trigger] parts[p]).site_id == (#[trigger] found[q]).site_id
            && parts[p].page_title == found[q].title by {
        lemma_lookup_sound(post, parts, q);
    }
}

} // verus!
