//! The per-job pipeline: page discovery turned into view rows and links,
//! view-count resolution decisions, and the namespace cache.
//!
//! Network and database traffic stay outside; each transformation here is a
//! function of its inputs, so the whole run is too.

use crate::group_id::GroupId;
use crate::records::{FilePart, FilePartModel, GlobalImageLinks, GlobalImageLinksModel, ViewCount,
    ViewIdSiteIdTitle, ViewIdSiteIdTitleModel, ViewsTodo};
use crate::site::{site2wiki, spec_site2wiki, Site};
use crate::snapshot::{g2v_model, keys_model, parts_model, sites_model, spec_create_views,
    spec_initialized, spec_insert_g2v, spec_mark_done, spec_reset_main, spec_summarized,
    spec_update_views, spec_viewid_lookup, strings_model, views_wf, Group2View, Group2ViewModel,
    SiteModel, SnapshotModel, ViewCandidate, ViewKey, ViewRowModel};
use crate::text::str_eq;
use crate::year_month::YearMonth;
use vstd::prelude::*;
use vstd::string::StringExecFns;

verus! {

/// One pipeline instance: a group and the month it is being attributed for.
#[derive(Debug, Clone, Copy, PartialEq, Eq, Structural)]
pub struct GroupDate {
    pub group_id: GroupId,
    pub ym: YearMonth,
}

impl GroupDate {
    pub fn new(id: GroupId, ym: YearMonth) -> (r: Self)
        ensures
            r.group_id == id,
            r.ym == ym,
    {
        Self { group_id: id, ym }
    }

    pub fn group_id(&self) -> (r: GroupId)
        ensures
            r == self.group_id,
    {
        self.group_id
    }

    pub fn ym(&self) -> (r: &YearMonth)
        ensures
            r == &self.ym,
    {
        &self.ym
    }

    /// Normalizes a server name for the page-view API: the data and species
    /// wikis answer on their own hosts; every other name passes unchanged.
    pub fn fix_server_name_for_page_view_api(server: &str) -> (r: String)
        ensures
            r@ == spec_fix_server(server@),
    {
        if str_eq(server, "wikidata.wikipedia.org") {
            "wikidata.org".to_owned()
        } else if str_eq(server, "species.wikipedia.org") {
            "species.wikimedia.org".to_owned()
        } else {
            server.to_owned()
        }
    }
}

/// The page-view API server for a wiki's web server name.
pub open spec fn spec_fix_server(server: Seq<char>) -> Seq<char> {
    if server == "wikidata.wikipedia.org"@ {
        "wikidata.org"@
    } else if server == "species.wikipedia.org"@ {
        "species.wikimedia.org"@
    } else {
        server
    }
}

/// The wiki identifier a site model derives.
pub open spec fn site_wiki(s: SiteModel) -> Option<Seq<char>> {
    spec_site2wiki(s.language, s.project)
}

/// The site id serving a wiki identifier: the last seeded site that derives
/// it, as a later site replaces an earlier one in the map.
pub open spec fn spec_site_for_wiki(sites: Seq<SiteModel>, w: Seq<char>) -> Option<int>
    decreases sites.len(),
{
    if sites.len() == 0 {
        None
    } else if site_wiki(sites.last()) == Some(w) {
        Some(sites.last().id)
    } else {
        spec_site_for_wiki(sites.drop_last(), w)
    }
}

/// Finds the site serving a wiki identifier.
pub fn get_site_for_wiki(sites: &Vec<Site>, wiki: &str) -> (r: Option<usize>)
    ensures
        match r {
            Some(id) => spec_site_for_wiki(sites_model(sites@), wiki@) == Some(id as int),
            None => spec_site_for_wiki(sites_model(sites@), wiki@) is None,
        },
{
    let ghost sm = sites_model(sites@);
    let mut j: usize = sites.len();
    proof {
        assert(sm.take(sites@.len() as int) =~= sm);
    }
    while j > 0
        invariant
            j <= sites@.len(),
            sm == sites_model(sites@),
            spec_site_for_wiki(sm, wiki@) == spec_site_for_wiki(sm.take(j as int), wiki@),
        decreases j,
    {
        j -= 1;
        let s = &sites[j];
        proof {
            assert(sm[j as int] == crate::snapshot::site_model(sites@[j as int]));
        }
        let derived = site2wiki(s);
        match derived {
            Some(dw) => {
                if str_eq(dw.as_str(), wiki) {
                    proof {
                        assert(site_wiki(sm[j as int]) == Some(wiki@));
                        assert(sm.take((j + 1) as int).last() == sm[j as int]);
                        assert(spec_site_for_wiki(sm.take((j + 1) as int), wiki@) == Some(
                            sm[j as int].id,
                        ));
                    }
                    return Some(s.id);
                }
                proof {
                    assert(site_wiki(sm[j as int]) != Some(wiki@));
                }
            },
            None => {
                proof {
                    assert(site_wiki(sm[j as int]) is None);
                }
            },
        }
        proof {
            assert(sm.take((j + 1) as int).drop_last() =~= sm.take(j as int));
            assert(sm.take((j + 1) as int).last() == sm[j as int]);
        }
    }
    proof {
        assert(sm.take(0) =~= Seq::<SiteModel>::empty());
    }
    None
}

pub open spec fn gils_model(s: Seq<GlobalImageLinks>) -> Seq<GlobalImageLinksModel> {
    s.map_values(|g: GlobalImageLinks| g@)
}

/// The view-row keys asked for by a chunk of embeddings: one per embedding
/// whose wiki maps to a seeded site; unknown wikis are skipped.
pub open spec fn spec_batch_cands(gils: Seq<GlobalImageLinksModel>, sites: Seq<SiteModel>) -> Seq<
    ViewKey,
>
    decreases gils.len(),
{
    if gils.len() == 0 {
        Seq::empty()
    } else {
        let rest = spec_batch_cands(gils.drop_last(), sites);
        match spec_site_for_wiki(sites, gils.last().wiki) {
            Some(site_id) => rest.push(
                ViewKey {
                    site: site_id,
                    title: gils.last().page_title,
                    namespace_id: gils.last().page_namespace_id,
                    page_id: gils.last().page,
                },
            ),
            None => rest,
        }
    }
}

/// The staged parts of a chunk of embeddings, parallel to the keys.
pub open spec fn spec_batch_parts(gils: Seq<GlobalImageLinksModel>, sites: Seq<SiteModel>) -> Seq<
    FilePartModel,
>
    decreases gils.len(),
{
    if gils.len() == 0 {
        Seq::empty()
    } else {
        let rest = spec_batch_parts(gils.drop_last(), sites);
        match spec_site_for_wiki(sites, gils.last().wiki) {
            Some(site_id) => rest.push(
                FilePartModel {
                    site_id,
                    page_title: gils.last().page_title,
                    page_id: gils.last().page,
                    file: gils.last().to,
                },
            ),
            None => rest,
        }
    }
}

/// The rendered insert tuples of a chunk of embeddings, parallel to the
/// keys.
pub open spec fn spec_batch_values(
    gils: Seq<GlobalImageLinksModel>,
    sites: Seq<SiteModel>,
    month: int,
    year: int,
) -> Seq<Seq<char>>
    decreases gils.len(),
{
    if gils.len() == 0 {
        Seq::empty()
    } else {
        let rest = spec_batch_values(gils.drop_last(), sites, month, year);
        match spec_site_for_wiki(sites, gils.last().wiki) {
            Some(site_id) => rest.push(
                crate::sql::spec_view_sql_value(
                    site_id,
                    month,
                    year,
                    gils.last().page_namespace_id,
                    gils.last().page,
                ),
            ),
            None => rest,
        }
    }
}

pub proof fn lemma_parts_model_push(s: Seq<FilePart>, x: FilePart)
    ensures
        parts_model(s.push(x)) == parts_model(s).push(x@),
{
    assert(parts_model(s.push(x)) =~= parts_model(s).push(x@));
}

pub proof fn lemma_keys_model_push(s: Seq<ViewCandidate>, x: ViewCandidate)
    ensures
        keys_model(s.push(x)) == keys_model(s).push(x@),
{
    assert(keys_model(s.push(x)) =~= keys_model(s).push(x@));
}

/// The products of one page-discovery chunk: rendered insert tuples, staged
/// parts and view-row candidates, all parallel.
pub struct ViewBatch {
    pub sql_values: Vec<String>,
    pub parts: Vec<FilePart>,
    pub cands: Vec<ViewCandidate>,
}

/// Translates a chunk of embeddings into the view rows to create: one per
/// embedding whose wiki maps to a seeded site; unknown wikis are silently
/// skipped.
pub fn build_view_batch(gils: &Vec<GlobalImageLinks>, sites: &Vec<Site>, ym: &YearMonth) -> (r:
    ViewBatch)
    requires
        ym.wf(),
    ensures
        strings_model(r.sql_values@) == spec_batch_values(
            gils_model(gils@),
            sites_model(sites@),
            ym.spec_month(),
            ym.spec_year(),
        ),
        parts_model(r.parts@) == spec_batch_parts(gils_model(gils@), sites_model(sites@)),
        keys_model(r.cands@) == spec_batch_cands(gils_model(gils@), sites_model(sites@)),
{
    let ghost gm = gils_model(gils@);
    let ghost sm = sites_model(sites@);
    let ghost month = ym.spec_month();
    let ghost year = ym.spec_year();
    let mut sql_values: Vec<String> = Vec::new();
    let mut parts: Vec<FilePart> = Vec::new();
    let mut cands: Vec<ViewCandidate> = Vec::new();
    let mut i: usize = 0;
    while i < gils.len()
        invariant
            i <= gils@.len(),
            gm == gils_model(gils@),
            sm == sites_model(sites@),
            month == ym.spec_month(),
            year == ym.spec_year(),
            ym.wf(),
            strings_model(sql_values@) == spec_batch_values(gm.take(i as int), sm, month, year),
            parts_model(parts@) == spec_batch_parts(gm.take(i as int), sm),
            keys_model(cands@) == spec_batch_cands(gm.take(i as int), sm),
        decreases gils@.len() - i,
    {
        let gil = &gils[i];
        proof {
            assert(gm[i as int] == gils@[i as int]@);
            assert(gm.take((i + 1) as int).drop_last() =~= gm.take(i as int));
            assert(gm.take((i + 1) as int).last() == gm[i as int]);
        }
        match get_site_for_wiki(sites, gil.wiki.as_str()) {
            Some(site_id) => {
                let value = crate::sql::view_sql_value(
                    site_id,
                    ym.month(),
                    ym.year(),
                    gil.page_namespace_id,
                    gil.page,
                );
                let ghost prevs = sql_values@;
                sql_values.push(value);
                proof {
                    crate::snapshot::lemma_strings_model_push(
                        prevs,
                        sql_values@[prevs.len() as int],
                    );
                    assert(strings_model(sql_values@) =~= spec_batch_values(
                        gm.take((i + 1) as int),
                        sm,
                        month,
                        year,
                    ));
                }
                let part = FilePart::new(site_id, gil.page_title.clone(), gil.page, gil.to.clone());
                let ghost prevp = parts@;
                proof {
                    assert(part@ =~= (FilePartModel {
                        site_id: site_id as int,
                        page_title: gm[i as int].page_title,
                        page_id: gm[i as int].page,
                        file: gm[i as int].to,
                    }));
                }
                parts.push(part);
                proof {
                    lemma_parts_model_push(prevp, parts@[prevp.len() as int]);
                    assert(parts_model(parts@) =~= spec_batch_parts(gm.take((i + 1) as int), sm));
                }
                let cand = ViewCandidate {
                    site_id,
                    title: gil.page_title.clone(),
                    namespace_id: gil.page_namespace_id,
                    page_id: gil.page,
                };
                let ghost prevc = cands@;
                proof {
                    assert(cand@ =~= (ViewKey {
                        site: site_id as int,
                        title: gm[i as int].page_title,
                        namespace_id: gm[i as int].page_namespace_id,
                        page_id: gm[i as int].page,
                    }));
                }
                cands.push(cand);
                proof {
                    lemma_keys_model_push(prevc, cands@[prevc.len() as int]);
                    assert(keys_model(cands@) =~= spec_batch_cands(gm.take((i + 1) as int), sm));
                }
            },
            None => {
                proof {
                    assert(strings_model(sql_values@) =~= spec_batch_values(
                        gm.take((i + 1) as int),
                        sm,
                        month,
                        year,
                    ));
                    assert(parts_model(parts@) =~= spec_batch_parts(gm.take((i + 1) as int), sm));
                    assert(keys_model(cands@) =~= spec_batch_cands(gm.take((i + 1) as int), sm));
                }
            },
        }
        i += 1;
    }
    proof {
        assert(gm.take(gils@.len() as int) =~= gm);
    }
    ViewBatch { sql_values, parts, cands }
}

/// The view id assigned to a `(site, title)` key: the last lookup entry for
/// it, as a later entry replaces an earlier one in the map.
pub open spec fn spec_lookup_view_id(
    results: Seq<ViewIdSiteIdTitleModel>,
    site: int,
    title: Seq<char>,
) -> Option<int>
    decreases results.len(),
{
    if results.len() == 0 {
        None
    } else if results.last().site_id == site && results.last().title == title {
        Some(results.last().view_id)
    } else {
        spec_lookup_view_id(results.drop_last(), site, title)
    }
}

/// Finds the view id assigned to a `(site, title)` key.
pub fn lookup_view_id(results: &Vec<ViewIdSiteIdTitle>, site: usize, title: &str) -> (r: Option<
    usize,
>)
    ensures
        match r {
            Some(v) => spec_lookup_view_id(
                crate::snapshot::vists_model(results@),
                site as int,
                title@,
            ) == Some(v as int),
            None => spec_lookup_view_id(
                crate::snapshot::vists_model(results@),
                site as int,
                title@,
            ) is None,
        },
{
    let ghost rm = crate::snapshot::vists_model(results@);
    let mut j: usize = results.len();
    proof {
        assert(rm.take(results@.len() as int) =~= rm);
    }
    while j > 0
        invariant
            j <= results@.len(),
            rm == crate::snapshot::vists_model(results@),
            spec_lookup_view_id(rm, site as int, title@) == spec_lookup_view_id(
                rm.take(j as int),
                site as int,
                title@,
            ),
        decreases j,
    {
        j -= 1;
        let e = &results[j];
        proof {
            assert(rm[j as int] == results@[j as int]@);
            assert(rm.take((j + 1) as int).drop_last() =~= rm.take(j as int));
            assert(rm.take((j + 1) as int).last() == rm[j as int]);
        }
        if e.site_id == site && str_eq(e.title.as_str(), title) {
            return Some(e.view_id);
        }
    }
    proof {
        assert(rm.take(0) =~= Seq::<ViewIdSiteIdTitleModel>::empty());
    }
    None
}

/// The links of one chunk: one per part whose `(site, title)` key got a view
/// id; parts whose key is missing are skipped.
pub open spec fn spec_g2v_links(
    parts: Seq<FilePartModel>,
    results: Seq<ViewIdSiteIdTitleModel>,
    group_status_id: int,
) -> Seq<Group2ViewModel>
    decreases parts.len(),
{
    if parts.len() == 0 {
        Seq::empty()
    } else {
        let rest = spec_g2v_links(parts.drop_last(), results, group_status_id);
        match spec_lookup_view_id(results, parts.last().site_id, parts.last().page_title) {
            Some(vid) => rest.push(
                Group2ViewModel { group_status_id, view_id: vid, image: parts.last().file },
            ),
            None => rest,
        }
    }
}

/// The rendered link tuples, parallel to the links.
pub open spec fn spec_g2v_values(
    parts: Seq<FilePartModel>,
    results: Seq<ViewIdSiteIdTitleModel>,
    group_status_id: int,
) -> Seq<Seq<char>>
    decreases parts.len(),
{
    if parts.len() == 0 {
        Seq::empty()
    } else {
        let rest = spec_g2v_values(parts.drop_last(), results, group_status_id);
        match spec_lookup_view_id(results, parts.last().site_id, parts.last().page_title) {
            Some(vid) => rest.push(crate::sql::spec_group2view_value(group_status_id, vid)),
            None => rest,
        }
    }
}

/// The originating file names, parallel to the links.
pub open spec fn spec_g2v_images(
    parts: Seq<FilePartModel>,
    results: Seq<ViewIdSiteIdTitleModel>,
) -> Seq<Seq<char>>
    decreases parts.len(),
{
    if parts.len() == 0 {
        Seq::empty()
    } else {
        let rest = spec_g2v_images(parts.drop_last(), results);
        match spec_lookup_view_id(results, parts.last().site_id, parts.last().page_title) {
            Some(vid) => rest.push(parts.last().file),
            None => rest,
        }
    }
}

/// The products of link building: the links, their rendered tuples and the
/// originating file names.
pub struct G2VBatch {
    pub links: Vec<Group2View>,
    pub values: Vec<String>,
    pub images: Vec<String>,
}

/// Matches staged parts against the assigned view ids and builds the
/// group-to-view links; a part whose key got no id is skipped.
pub fn build_group2view_links(
    parts: &Vec<FilePart>,
    results: &Vec<ViewIdSiteIdTitle>,
    group_status_id: usize,
) -> (r: G2VBatch)
    ensures
        g2v_model(r.links@) == spec_g2v_links(
            parts_model(parts@),
            crate::snapshot::vists_model(results@),
            group_status_id as int,
        ),
        strings_model(r.values@) == spec_g2v_values(
            parts_model(parts@),
            crate::snapshot::vists_model(results@),
            group_status_id as int,
        ),
        strings_model(r.images@) == spec_g2v_images(
            parts_model(parts@),
            crate::snapshot::vists_model(results@),
        ),
{
    let ghost pm = parts_model(parts@);
    let ghost rm = crate::snapshot::vists_model(results@);
    let ghost gsid = group_status_id as int;
    let mut links: Vec<Group2View> = Vec::new();
    let mut values: Vec<String> = Vec::new();
    let mut images: Vec<String> = Vec::new();
    let mut i: usize = 0;
    while i < parts.len()
        invariant
            i <= parts@.len(),
            pm == parts_model(parts@),
            rm == crate::snapshot::vists_model(results@),
            gsid == group_status_id as int,
            g2v_model(links@) == spec_g2v_links(pm.take(i as int), rm, gsid),
            strings_model(values@) == spec_g2v_values(pm.take(i as int), rm, gsid),
            strings_model(images@) == spec_g2v_images(pm.take(i as int), rm),
        decreases parts@.len() - i,
    {
        let part = &parts[i];
        proof {
            assert(pm[i as int] == parts@[i as int]@);
            assert(pm.take((i + 1) as int).drop_last() =~= pm.take(i as int));
            assert(pm.take((i + 1) as int).last() == pm[i as int]);
        }
        match lookup_view_id(results, part.site_id, part.page_title.as_str()) {
            Some(view_id) => {
                let link = Group2View {
                    group_status_id,
                    view_id,
                    image: part.file.clone(),
                };
                let ghost prevl = links@;
                proof {
                    assert(link@ =~= (Group2ViewModel {
                        group_status_id: gsid,
                        view_id: view_id as int,
                        image: pm[i as int].file,
                    }));
                }
                links.push(link);
                proof {
                    crate::snapshot::lemma_g2v_model_push(prevl, links@[prevl.len() as int]);
                    assert(g2v_model(links@) =~= spec_g2v_links(pm.take((i + 1) as int), rm, gsid));
                }
                let value = crate::sql::group2view_value(group_status_id, view_id);
                let ghost prevv = values@;
                values.push(value);
                proof {
                    crate::snapshot::lemma_strings_model_push(prevv, values@[prevv.len() as int]);
                    assert(strings_model(values@) =~= spec_g2v_values(
                        pm.take((i + 1) as int),
                        rm,
                        gsid,
                    ));
                }
                let image = part.file.clone();
                let ghost previ = images@;
                images.push(image);
                proof {
                    crate::snapshot::lemma_strings_model_push(previ, images@[previ.len() as int]);
                    assert(strings_model(images@) =~= spec_g2v_images(pm.take((i + 1) as int), rm));
                }
            },
            None => {
                proof {
                    assert(g2v_model(links@) =~= spec_g2v_links(pm.take((i + 1) as int), rm, gsid));
                    assert(strings_model(values@) =~= spec_g2v_values(
                        pm.take((i + 1) as int),
                        rm,
                        gsid,
                    ));
                    assert(strings_model(images@) =~= spec_g2v_images(pm.take((i + 1) as int), rm));
                }
            },
        }
        i += 1;
    }
    proof {
        assert(pm.take(parts@.len() as int) =~= pm);
    }
    G2VBatch { links, values, images }
}

/// An id handed out by the lookup is the id of one of its entries.
pub proof fn lemma_lookup_view_id_from_results(
    results: Seq<ViewIdSiteIdTitleModel>,
    site: int,
    title: Seq<char>,
    lo: int,
    hi: int,
)
    requires
        forall|q: int| 0 <= q < results.len() ==> lo <= (#[trigger] results[q]).view_id <= hi,
        spec_lookup_view_id(results, site, title) is Some,
    ensures
        lo <= spec_lookup_view_id(results, site, title).unwrap() <= hi,
    decreases results.len(),
{
    if results.len() > 0 {
        if results.last().site_id == site && results.last().title == title {
        } else {
            assert(forall|q: int|
                0 <= q < results.drop_last().len() ==> lo <= (
                #[trigger] results.drop_last()[q]).view_id <= hi);
            lemma_lookup_view_id_from_results(results.drop_last(), site, title, lo, hi);
        }
    }
}

/// Every built link points at an id the lookup handed out.
pub proof fn lemma_g2v_links_bounded(
    parts: Seq<FilePartModel>,
    results: Seq<ViewIdSiteIdTitleModel>,
    group_status_id: int,
    lo: int,
    hi: int,
)
    requires
        forall|q: int| 0 <= q < results.len() ==> lo <= (#[trigger] results[q]).view_id <= hi,
    ensures
        forall|q: int|
            0 <= q < spec_g2v_links(parts, results, group_status_id).len() ==> lo <= (
            #[trigger] spec_g2v_links(parts, results, group_status_id)[q]).view_id <= hi,
    decreases parts.len(),
{
    if parts.len() > 0 {
        lemma_g2v_links_bounded(parts.drop_last(), results, group_status_id, lo, hi);
        let rest = spec_g2v_links(parts.drop_last(), results, group_status_id);
        let post = spec_g2v_links(parts, results, group_status_id);
        match spec_lookup_view_id(results, parts.last().site_id, parts.last().page_title) {
            Some(vid) => {
                lemma_lookup_view_id_from_results(
                    results,
                    parts.last().site_id,
                    parts.last().page_title,
                    lo,
                    hi,
                );
                assert forall|q: int| 0 <= q < post.len() implies lo <= (
                #[trigger] post[q]).view_id <= hi by {
                    if q < rest.len() {
                        assert(post[q] == rest[q]);
                    } else {
                        assert(post[q].view_id == vid);
                    }
                }
            },
            None => {
                assert(post == rest);
            },
        }
    }
}

/// Every entry of the reverse lookup carries the id of an existing row.
pub proof fn lemma_viewid_lookup_bounded(
    views: Seq<ViewRowModel>,
    parts: Seq<FilePartModel>,
    month: int,
    year: int,
)
    requires
        views_wf(views, month, year),
    ensures
        forall|q: int|
            0 <= q < spec_viewid_lookup(views, parts).len() ==> 1 <= (#[trigger] spec_viewid_lookup(
                views,
                parts,
            )[q]).view_id <= views.len(),
    decreases views.len(),
{
    if views.len() > 0 {
        assert(views.drop_last() =~= views.take(views.len() - 1));
        assert forall|i: int| 0 <= i < views.drop_last().len() implies (
        #[trigger] views.drop_last()[i]).id == i + 1 by {
            assert(views.drop_last()[i] == views[i]);
        }
        assert(views_wf(views.drop_last(), month, year)) by {
            assert forall|i: int| 0 <= i < views.drop_last().len() implies 0 <= (
            #[trigger] views.drop_last()[i]).done <= 4 && views.drop_last()[i].views >= 0
                && views.drop_last()[i].month == month && views.drop_last()[i].year == year by {
                assert(views.drop_last()[i] == views[i]);
            }
            assert forall|i: int, j: int| 0 <= i < j < views.drop_last().len() implies !crate::snapshot::key_eq(
                crate::snapshot::row_key(#[trigger] views.drop_last()[i]),
                crate::snapshot::row_key(#[trigger] views.drop_last()[j]),
            ) by {
                assert(views.drop_last()[i] == views[i]);
                assert(views.drop_last()[j] == views[j]);
            }
        }
        lemma_viewid_lookup_bounded(views.drop_last(), parts, month, year);
        let found = spec_viewid_lookup(views, parts);
        let rest = spec_viewid_lookup(views.drop_last(), parts);
        assert forall|q: int| 0 <= q < found.len() implies 1 <= (#[trigger] found[q]).view_id
            <= views.len() by {
            if crate::snapshot::part_match(views.last(), parts) && q == rest.len() {
                assert(found[q] == crate::snapshot::lookup_item(views.last()));
                assert(views.last().id == views.len());
            } else {
                assert(found[q] == rest[q]);
            }
        }
    }
}

/// One discovery chunk written into the snapshot: the candidate rows are
/// upserted, the assigned ids are looked up by `(site, title)`, and the
/// group-to-view links are inserted; a part whose key got no id is skipped.
pub fn add_views_batch_for_files(
    snap: &mut crate::snapshot::Snapshot,
    cands: &Vec<ViewCandidate>,
    parts: &Vec<FilePart>,
) -> (r: G2VBatch)
    requires
        old(snap).inv(),
        old(snap)@.views.len() + cands@.len() < usize::MAX,
    ensures
        final(snap).inv(),
        final(snap)@ == (crate::snapshot::SnapshotModel {
            views: spec_create_views(
                old(snap)@.views,
                keys_model(cands@),
                old(snap)@.month,
                old(snap)@.year,
            ),
            group2view: spec_insert_g2v(
                old(snap)@.group2view,
                spec_g2v_links(
                    parts_model(parts@),
                    spec_viewid_lookup(
                        spec_create_views(
                            old(snap)@.views,
                            keys_model(cands@),
                            old(snap)@.month,
                            old(snap)@.year,
                        ),
                        parts_model(parts@),
                    ),
                    old(snap)@.group_status_id,
                ),
            ),
            ..old(snap)@
        }),
        strings_model(r.values@) == spec_g2v_values(
            parts_model(parts@),
            spec_viewid_lookup(final(snap)@.views, parts_model(parts@)),
            old(snap)@.group_status_id,
        ),
        strings_model(r.images@) == spec_g2v_images(
            parts_model(parts@),
            spec_viewid_lookup(final(snap)@.views, parts_model(parts@)),
        ),
{
    snap.create_views_in_db(cands);
    let found = snap.get_viewid_site_id_title(parts);
    let group_status_id = snap.group_status_id();
    let batch = build_group2view_links(parts, &found, group_status_id);
    proof {
        lemma_viewid_lookup_bounded(snap@.views, parts_model(parts@), snap@.month, snap@.year);
        lemma_g2v_links_bounded(
            parts_model(parts@),
            crate::snapshot::vists_model(found@),
            group_status_id as int,
            1,
            snap@.views.len() as int,
        );
        assert(g2v_model(batch.links@) == spec_g2v_links(
            parts_model(parts@),
            crate::snapshot::vists_model(found@),
            group_status_id as int,
        ));
        assert forall|i: int| 0 <= i < batch.links@.len() implies 1 <= (
        #[trigger] batch.links@[i]).view_id <= snap@.views.len() by {
            assert(g2v_model(batch.links@)[i] == batch.links@[i]@);
        }
    }
    snap.insert_group2view(&batch.links);
    batch
}

/// What the resolution step decides for one unresolved row before any
/// network call: which failure code applies, or which wiki to resolve the
/// title against.
pub enum RowClass {
    /// The site has no server name: the row is marked with code two.
    UnknownServer,
    /// The row's site is not seeded: the row is left for a later pass.
    UnknownSite,
    /// The site derives no wiki identifier: the row is marked with code
    /// three.
    UnknownWiki,
    /// The row can be resolved: the server to ask and the wiki whose
    /// namespaces apply.
    Resolve(String, String),
}

/// Decides the fate of one unresolved row from its server and site alone.
pub fn classify_view_row(vc: &ViewCount, site: Option<&Site>) -> (r: RowClass)
    ensures
        match r {
            RowClass::UnknownServer => vc.server is None,
            RowClass::UnknownSite => vc.server is Some && site is None,
            RowClass::UnknownWiki => vc.server is Some && (site matches Some(s)
                && s.spec_wiki() is None),
            RowClass::Resolve(server, wiki) => vc.server matches Some(sv) && server@ == sv@ && (
            site matches Some(s) && s.spec_wiki() matches Some(w) && wiki@ == w),
        },
{
    let server = match &vc.server {
        Some(server) => server,
        None => { return RowClass::UnknownServer },
    };
    let site = match site {
        Some(site) => site,
        None => { return RowClass::UnknownSite },
    };
    match site2wiki(site) {
        Some(wiki) => RowClass::Resolve(server.clone(), wiki),
        None => RowClass::UnknownWiki,
    }
}

/// Builds the page-view request for a resolved row; a row whose title could
/// not be prefixed yields nothing, and the caller marks it with code four.
pub fn views_todo_for(
    vc: &ViewCount,
    server: &str,
    prefixed_title: Option<String>,
    first_day: &str,
    last_day: &str,
) -> (r: Option<ViewsTodo>)
    ensures
        match r {
            Some(todo) => prefixed_title matches Some(t) && todo.server@ == server@ && todo.title@
                == t@ && todo.first_day@ == first_day@ && todo.last_day@ == last_day@
                && todo.view_id == vc.view_id,
            None => prefixed_title is None,
        },
{
    match prefixed_title {
        Some(title) => Some(ViewsTodo::new(server, title.as_str(), first_day, last_day, vc.view_id)),
        None => None,
    }
}

/// Joins a namespace prefix to a title: an empty prefix leaves the title
/// as it is.
pub fn apply_namespace_prefix(prefix: &str, title: &str) -> (r: String)
    ensures
        prefix@.len() == 0 ==> r@ == title@,
        prefix@.len() > 0 ==> r@ == prefix@ + seq![':'] + title@,
{
    if prefix.is_empty() {
        title.to_owned()
    } else {
        let mut s = prefix.to_owned();
        crate::text::push_char(&mut s, ':');
        s.append(title);
        proof {
            assert(s@ =~= prefix@ + seq![':'] + title@);
        }
        s
    }
}

/// One entry of the namespace cache.
#[derive(Debug)]
pub struct NsEntry {
    pub wiki: String,
    pub namespace_id: i32,
    pub prefix: Option<String>,
}

/// The model of a cache entry.
#[verifier::ext_equal]
pub struct NsEntryModel {
    pub wiki: Seq<char>,
    pub namespace_id: int,
    pub prefix: Option<Seq<char>>,
}

impl View for NsEntry {
    type V = NsEntryModel;

    open spec fn view(&self) -> NsEntryModel {
        NsEntryModel {
            wiki: self.wiki@,
            namespace_id: self.namespace_id as int,
            prefix: crate::snapshot::opt_view(self.prefix),
        }
    }
}

pub open spec fn ns_model(s: Seq<NsEntry>) -> Seq<NsEntryModel> {
    s.map_values(|e: NsEntry| e@)
}

/// The cached prefix of a `(wiki, namespace)` key: the first entry for it.
pub open spec fn spec_ns_get(entries: Seq<NsEntryModel>, wiki: Seq<char>, ns: int) -> Option<
    Option<Seq<char>>,
>
    decreases entries.len(),
{
    if entries.len() == 0 {
        None
    } else if entries[0].wiki == wiki && entries[0].namespace_id == ns {
        Some(entries[0].prefix)
    } else {
        spec_ns_get(entries.drop_first(), wiki, ns)
    }
}

pub proof fn lemma_ns_get_skip(entries: Seq<NsEntryModel>, wiki: Seq<char>, ns: int, i: int)
    requires
        0 <= i <= entries.len(),
        forall|j: int|
            0 <= j < i ==> !((#[trigger] entries[j]).wiki == wiki && entries[j].namespace_id
                == ns),
    ensures
        spec_ns_get(entries, wiki, ns) == spec_ns_get(entries.skip(i), wiki, ns),
    decreases i,
{
    if i == 0 {
        assert(entries.skip(0) =~= entries);
    } else {
        assert(entries.drop_first() =~= entries.skip(1));
        assert(spec_ns_get(entries, wiki, ns) == spec_ns_get(entries.drop_first(), wiki, ns));
        assert forall|j: int| 0 <= j < i - 1 implies !((#[trigger] entries.skip(1)[j]).wiki == wiki
            && entries.skip(1)[j].namespace_id == ns) by {
            assert(entries.skip(1)[j] == entries[j + 1]);
        }
        lemma_ns_get_skip(entries.skip(1), wiki, ns, i - 1);
        assert(entries.skip(1).skip(i - 1) =~= entries.skip(i));
        assert(spec_ns_get(entries.skip(1).skip(i - 1), wiki, ns) == spec_ns_get(
            entries.skip(i),
            wiki,
            ns,
        ));
    }
}

/// The process-wide namespace cache: `(wiki, namespace id)` to canonical
/// prefix, write-once per key.
pub struct NamespaceCache {
    entries: Vec<NsEntry>,
}

impl View for NamespaceCache {
    type V = Seq<NsEntryModel>;

    closed spec fn view(&self) -> Seq<NsEntryModel> {
        ns_model(self.entries@)
    }
}

impl NamespaceCache {
    pub fn new() -> (r: Self)
        ensures
            r@ == Seq::<NsEntryModel>::empty(),
    {
        let r = NamespaceCache { entries: Vec::new() };
        proof {
            assert(r@ =~= Seq::<NsEntryModel>::empty());
        }
        r
    }

    /// The cached prefix for a key, if any fetch filled it already.
    pub fn get(&self, wiki: &str, namespace_id: i32) -> (r: Option<Option<String>>)
        ensures
            match r {
                Some(p) => spec_ns_get(self@, wiki@, namespace_id as int) == Some(
                    crate::snapshot::opt_view(p),
                ),
                None => spec_ns_get(self@, wiki@, namespace_id as int) is None,
            },
    {
        let ghost em = self@;
        let n = self.entries.len();
        let mut j: usize = 0;
        while j < n
            invariant
                n == self.entries@.len(),
                j <= n,
                em == ns_model(self.entries@),
                forall|t: int|
                    0 <= t < j ==> !((#[trigger] em[t]).wiki == wiki@ && em[t].namespace_id
                        == namespace_id as int),
            decreases n - j,
        {
            let e = &self.entries[j];
            proof {
                assert(em[j as int] == self.entries@[j as int]@);
            }
            if e.namespace_id == namespace_id && str_eq(e.wiki.as_str(), wiki) {
                proof {
                    lemma_ns_get_skip(em, wiki@, namespace_id as int, j as int);
                    assert(em.skip(j as int)[0] == em[j as int]);
                    assert(spec_ns_get(em.skip(j as int), wiki@, namespace_id as int) == Some(
                        em[j as int].prefix,
                    ));
                }
                return Some(crate::snapshot::clone_opt(&e.prefix));
            }
            j += 1;
        }
        proof {
            lemma_ns_get_skip(em, wiki@, namespace_id as int, n as int);
            assert(em.skip(n as int) =~= Seq::<NsEntryModel>::empty());
        }
        None
    }

    /// Caches a fetched prefix; the first writer wins, so a key already
    /// present keeps its value.
    pub fn insert_if_absent(&mut self, wiki: &str, namespace_id: i32, prefix: Option<String>)
        ensures
            spec_ns_get(old(self)@, wiki@, namespace_id as int) is Some ==> final(self)@ == old(
                self,
            )@,
            spec_ns_get(old(self)@, wiki@, namespace_id as int) is None ==> final(self)@ == old(
                self,
            )@.push(
                NsEntryModel {
                    wiki: wiki@,
                    namespace_id: namespace_id as int,
                    prefix: crate::snapshot::opt_view(prefix),
                },
            ),
    {
        match self.get(wiki, namespace_id) {
            Some(_) => {},
            None => {
                let ghost prev = self.entries@;
                let entry = NsEntry { wiki: wiki.to_owned(), namespace_id, prefix };
                let ghost em = entry@;
                self.entries.push(entry);
                proof {
                    assert(self.entries@ == prev.push(self.entries@[prev.len() as int]));
                    assert(ns_model(self.entries@) =~= ns_model(prev).push(em));
                }
            },
        }
    }
}

/// The fetched counts applied in order: each resolves one view row.
pub open spec fn spec_apply_counts(views: Seq<ViewRowModel>, counts: Seq<(int, int)>) -> Seq<
    ViewRowModel,
>
    decreases counts.len(),
{
    if counts.len() == 0 {
        views
    } else {
        spec_update_views(
            spec_apply_counts(views, counts.drop_last()),
            counts.last().0,
            counts.last().1,
        )
    }
}

/// The failure marks applied in order: each closes one view row with its
/// outcome code and a zero count.
pub open spec fn spec_apply_marks(views: Seq<ViewRowModel>, marks: Seq<(int, int)>) -> Seq<
    ViewRowModel,
>
    decreases marks.len(),
{
    if marks.len() == 0 {
        views
    } else {
        spec_mark_done(spec_apply_marks(views, marks.drop_last()), marks.last().0, marks.last().1)
    }
}

/// The whole job as a function of its inputs: the snapshot a run produces
/// from the group, the month, the seeded sites, the discovered files, the
/// embeddings, the failure marks and the fetched counts.
pub open spec fn spec_run_job(
    group_id: int,
    year: int,
    month: int,
    group_status_id: int,
    group: Option<crate::records::RowGroupModel>,
    sites: Seq<SiteModel>,
    files: Seq<Seq<char>>,
    gils: Seq<GlobalImageLinksModel>,
    marks: Seq<(int, int)>,
    counts: Seq<(int, int)>,
) -> SnapshotModel {
    let s0 = spec_initialized(group_id, year, month, group_status_id, sites);
    let staged = SnapshotModel { group, files, ..s0 };
    let views1 = spec_create_views(Seq::empty(), spec_batch_cands(gils, sites), month, year);
    let results = spec_viewid_lookup(views1, spec_batch_parts(gils, sites));
    let links = spec_g2v_links(spec_batch_parts(gils, sites), results, group_status_id);
    let scanned = SnapshotModel {
        views: views1,
        group2view: spec_insert_g2v(Seq::empty(), links),
        ..staged
    };
    let hidden = SnapshotModel { views: spec_reset_main(scanned.views), ..scanned };
    let marked = SnapshotModel { views: spec_apply_marks(hidden.views, marks), ..hidden };
    let resolved = SnapshotModel { views: spec_apply_counts(marked.views, counts), ..marked };
    spec_summarized(resolved, group_status_id)
}

/// Law: a rerun recreates the same snapshot. The pipeline's result is a
/// function of the group, the month, the seeded sites, the discovered
/// files, the embeddings and the fetched counts alone; two runs from equal
/// inputs therefore agree on every row, link, aggregate and total.
pub proof fn lemma_rerun_identical(
    a: SnapshotModel,
    b: SnapshotModel,
    group_id: int,
    year: int,
    month: int,
    group_status_id: int,
    group: Option<crate::records::RowGroupModel>,
    sites: Seq<SiteModel>,
    files: Seq<Seq<char>>,
    gils: Seq<GlobalImageLinksModel>,
    marks: Seq<(int, int)>,
    counts: Seq<(int, int)>,
)
    requires
        a == spec_run_job(
            group_id,
            year,
            month,
            group_status_id,
            group,
            sites,
            files,
            gils,
            marks,
            counts,
        ),
        b == spec_run_job(
            group_id,
            year,
            month,
            group_status_id,
            group,
            sites,
            files,
            gils,
            marks,
            counts,
        ),
    ensures
        a == b,
{
}

} // verus!
