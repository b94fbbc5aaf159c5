//! Plain records exchanged between the pipeline, the storage layer and the
//! callers: staged file/page parts, view rows to resolve, and the rows of the
//! control database.

use vstd::prelude::*;
use vstd::string::StringExecFns;

verus! {

/// One staged `(site, page, file)` triple: the page on `site_id` embeds
/// `file`, and a view row for it is being created or looked up.
#[derive(Debug)]
pub struct FilePart {
    pub site_id: usize,
    pub page_title: String,
    pub page_id: usize,
    pub file: String,
}

/// The model of a staged part.
#[verifier::ext_equal]
pub struct FilePartModel {
    pub site_id: int,
    pub page_title: Seq<char>,
    pub page_id: int,
    pub file: Seq<char>,
}

impl View for FilePart {
    type V = FilePartModel;

    open spec fn view(&self) -> FilePartModel {
        FilePartModel {
            site_id: self.site_id as int,
            page_title: self.page_title@,
            page_id: self.page_id as int,
            file: self.file@,
        }
    }
}

impl FilePart {
    pub fn new(site_id: usize, page_title: String, page_id: usize, file: String) -> (r: Self)
        ensures
            r.site_id == site_id,
            r.page_title == page_title,
            r.page_id == page_id,
            r.file == file,
    {
        Self { site_id, page_title, page_id, file }
    }
}

/// A view row id together with the `(site, title)` key it was assigned for.
#[derive(Debug, PartialEq)]
pub struct ViewIdSiteIdTitle {
    pub view_id: usize,
    pub site_id: usize,
    pub title: String,
}

/// The model of an id lookup result.
#[verifier::ext_equal]
pub struct ViewIdSiteIdTitleModel {
    pub view_id: int,
    pub site_id: int,
    pub title: Seq<char>,
}

impl View for ViewIdSiteIdTitle {
    type V = ViewIdSiteIdTitleModel;

    open spec fn view(&self) -> ViewIdSiteIdTitleModel {
        ViewIdSiteIdTitleModel {
            view_id: self.view_id as int,
            site_id: self.site_id as int,
            title: self.title@,
        }
    }
}

impl ViewIdSiteIdTitle {
    pub fn new(view_id: usize, site_id: usize, title: String) -> (r: Self)
        ensures
            r.view_id == view_id,
            r.site_id == site_id,
            r.title == title,
    {
        Self { view_id, site_id, title }
    }
}

/// One page-view request: where to ask, for which title, over which days,
/// and which view row the answer belongs to.
#[derive(Debug)]
pub struct ViewsTodo {
    pub server: String,
    pub title: String,
    pub first_day: String,
    pub last_day: String,
    pub view_id: usize,
}

impl ViewsTodo {
    pub fn new(server: &str, title: &str, first_day: &str, last_day: &str, view_id: usize) -> (r:
        Self)
        ensures
            r.server@ == server@,
            r.title@ == title@,
            r.first_day@ == first_day@,
            r.last_day@ == last_day@,
            r.view_id == view_id,
    {
        Self {
            server: server.to_owned(),
            title: title.to_owned(),
            first_day: first_day.to_owned(),
            last_day: last_day.to_owned(),
            view_id,
        }
    }
}

/// An unresolved view row as handed to the resolution step.
#[derive(Debug, Clone)]
pub struct ViewCount {
    pub view_id: usize,
    pub title: String,
    pub namespace_id: i32,
    pub grok_code: Option<String>,
    pub server: Option<String>,
    pub done: u8,
    pub site_id: usize,
}

/// The model of an unresolved view row.
#[verifier::ext_equal]
pub struct ViewCountModel {
    pub view_id: int,
    pub title: Seq<char>,
    pub namespace_id: int,
    pub grok_code: Option<Seq<char>>,
    pub server: Option<Seq<char>>,
    pub done: int,
    pub site_id: int,
}

impl View for ViewCount {
    type V = ViewCountModel;

    open spec fn view(&self) -> ViewCountModel {
        ViewCountModel {
            view_id: self.view_id as int,
            title: self.title@,
            namespace_id: self.namespace_id as int,
            grok_code: match self.grok_code {
                Some(ref s) => Some(s@),
                None => None,
            },
            server: match self.server {
                Some(ref s) => Some(s@),
                None => None,
            },
            done: self.done as int,
            site_id: self.site_id as int,
        }
    }
}

/// One embedding: a page on some wiki renders the file `to`.
#[derive(Debug, Clone)]
pub struct GlobalImageLinks {
    pub wiki: String,
    pub page: usize,
    pub page_namespace_id: i32,
    pub page_title: String,
    pub to: String,
}

/// The model of an embedding.
#[verifier::ext_equal]
pub struct GlobalImageLinksModel {
    pub wiki: Seq<char>,
    pub page: int,
    pub page_namespace_id: int,
    pub page_title: Seq<char>,
    pub to: Seq<char>,
}

impl View for GlobalImageLinks {
    type V = GlobalImageLinksModel;

    open spec fn view(&self) -> GlobalImageLinksModel {
        GlobalImageLinksModel {
            wiki: self.wiki@,
            page: self.page as int,
            page_namespace_id: self.page_namespace_id as int,
            page_title: self.page_title@,
            to: self.to@,
        }
    }
}

/// A row of the `groups` control table.
#[derive(Debug, Clone)]
pub struct RowGroup {
    id: usize,
    category: String,
    depth: usize,
    added_by: String,
    just_added: u8,
    is_active: u8,
    is_user_name: u8,
}

/// The model of a group row.
#[verifier::ext_equal]
pub struct RowGroupModel {
    pub id: int,
    pub category: Seq<char>,
    pub depth: int,
    pub added_by: Seq<char>,
    pub just_added: int,
    pub is_active: int,
    pub is_user_name: bool,
}

impl View for RowGroup {
    type V = RowGroupModel;

    open spec fn view(&self) -> RowGroupModel {
        RowGroupModel {
            id: self.spec_id(),
            category: self.spec_category(),
            depth: self.spec_depth(),
            added_by: self.spec_added_by(),
            just_added: self.spec_just_added(),
            is_active: self.spec_is_active(),
            is_user_name: self.spec_is_user_name(),
        }
    }
}

impl RowGroup {
    /// The column list every read of the `groups` table uses; category and
    /// uploader pass through a base64 round trip so the bytes survive the
    /// wire encoding.
    pub fn sql_select() -> (s: String)
        ensures
            s@ == "SELECT id,FROM_BASE64(TO_BASE64(category)),depth,FROM_BASE64(TO_BASE64(added_by)),just_added,is_active,is_user_name FROM `groups`"@,
    {
        "SELECT id,FROM_BASE64(TO_BASE64(category)),depth,FROM_BASE64(TO_BASE64(added_by)),just_added,is_active,is_user_name FROM `groups`".to_owned()
    }

    pub fn new(
        id: usize,
        category: String,
        depth: usize,
        added_by: String,
        just_added: u8,
        is_active: u8,
        is_user_name: u8,
    ) -> (r: Self)
        ensures
            r.spec_id() == id,
            r.spec_category() == category@,
            r.spec_depth() == depth,
            r.spec_added_by() == added_by@,
            r.spec_just_added() == just_added,
            r.spec_is_active() == is_active,
            r.spec_is_user_name() == (is_user_name == 1),
    {
        Self { id, category, depth, added_by, just_added, is_active, is_user_name }
    }

    pub closed spec fn spec_id(&self) -> int {
        self.id as int
    }

    pub closed spec fn spec_category(&self) -> Seq<char> {
        self.category@
    }

    pub closed spec fn spec_depth(&self) -> int {
        self.depth as int
    }

    pub closed spec fn spec_added_by(&self) -> Seq<char> {
        self.added_by@
    }

    pub closed spec fn spec_just_added(&self) -> int {
        self.just_added as int
    }

    pub closed spec fn spec_is_active(&self) -> int {
        self.is_active as int
    }

    pub closed spec fn spec_is_user_name(&self) -> bool {
        self.is_user_name == 1
    }

    pub fn id(&self) -> (r: usize)
        ensures
            r == self.spec_id(),
    {
        self.id
    }

    pub fn category(&self) -> (r: &String)
        ensures
            r@ == self.spec_category(),
    {
        &self.category
    }

    pub fn depth(&self) -> (r: usize)
        ensures
            r == self.spec_depth(),
    {
        self.depth
    }

    pub fn added_by(&self) -> (r: &String)
        ensures
            r@ == self.spec_added_by(),
    {
        &self.added_by
    }

    pub fn just_added(&self) -> (r: u8)
        ensures
            r == self.spec_just_added(),
    {
        self.just_added
    }

    pub fn is_active(&self) -> (r: u8)
        ensures
            r == self.spec_is_active(),
    {
        self.is_active
    }

    pub fn is_user_name(&self) -> (r: bool)
        ensures
            r == self.spec_is_user_name(),
    {
        self.is_user_name == 1
    }
}

/// A row of the `group_status` control table.
#[derive(Debug, Clone, PartialEq)]
pub struct RowGroupStatus {
    pub id: usize,
    pub group_id: usize,
    pub year: i32,
    pub month: u32,
    pub status: String,
    pub total_views: Option<usize>,
    pub file: Option<String>,
    pub sqlite3: Option<String>,
}

/// A staged file of the shared server store, with its surrogate key once
/// one is known.
#[derive(Debug, Clone)]
pub struct File {
    pub id: Option<usize>,
    pub name: String,
}

/// The model of a staged file.
#[verifier::ext_equal]
pub struct FileModel {
    pub id: Option<int>,
    pub name: Seq<char>,
}

impl View for File {
    type V = FileModel;

    open spec fn view(&self) -> FileModel {
        FileModel {
            id: match self.id {
                Some(v) => Some(v as int),
                None => None,
            },
            name: self.name@,
        }
    }
}

impl File {
    pub fn new(id: Option<usize>, name: String) -> (r: Self)
        ensures
            r.id == id,
            r.name == name,
    {
        File { id, name }
    }

    pub fn new_no_id(name: &str) -> (r: Self)
        ensures
            r.id is None,
            r.name@ == name@,
    {
        File { id: None, name: name.to_owned() }
    }
}

/// A staged page of the shared server store, with its surrogate key once
/// one is known.
#[derive(Debug, Clone)]
pub struct Page {
    pub id: Option<usize>,
    pub site_id: usize,
    pub title: String,
    pub namespace_id: i32,
}

/// The model of a staged page.
#[verifier::ext_equal]
pub struct PageModel {
    pub id: Option<int>,
    pub site_id: int,
    pub title: Seq<char>,
    pub namespace_id: int,
}

impl View for Page {
    type V = PageModel;

    open spec fn view(&self) -> PageModel {
        PageModel {
            id: match self.id {
                Some(v) => Some(v as int),
                None => None,
            },
            site_id: self.site_id as int,
            title: self.title@,
            namespace_id: self.namespace_id as int,
        }
    }
}

impl Page {
    /// The column list every read of the `pages` table uses.
    pub fn sql_fields() -> (s: &'static str)
        ensures
            s@ == "id,site,title,namespace_id"@,
    {
        "id,site,title,namespace_id"
    }

    pub fn new(site_id: usize, title: String, namespace_id: i32) -> (r: Self)
        ensures
            r.id is None,
            r.site_id == site_id,
            r.title == title,
            r.namespace_id == namespace_id,
    {
        Self { id: None, site_id, title, namespace_id }
    }
}

} // verus!
