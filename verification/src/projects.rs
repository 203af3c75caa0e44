//! Projects: the listing assembled from each project's configuration, and
//! the listing of a project's own files.

use vstd::prelude::*;
use crate::sort::{SortOrder, lemma_map_values_multiset, ordered, sort_items};
use crate::text::{chars_le, eq_lower, ext_of, file_ext, lemma_chars_le_total,
    lemma_chars_le_trans, str_eq, str_eq_lower, str_le};

verus! {

/// One row of the project listing handed to consumers.
pub struct ProjectListItem {
    pub id: String,
    pub name: String,
    pub path: String,
    pub status: String,
    pub wbs_depth: Option<u32>,
    pub created_at: Option<String>,
}

/// The `project` section of a project's work-breakdown file.
pub struct ProjectConfig {
    pub id: String,
    pub name: String,
    pub description: Option<String>,
    pub version: Option<String>,
    pub status: Option<String>,
    pub wbs_depth: Option<u32>,
    pub created_at: Option<String>,
    pub updated_at: Option<String>,
    pub scheduled_start: Option<String>,
    pub scheduled_end: Option<String>,
}

/// The `wbs` section of a project's work-breakdown file.
pub struct WbsConfig {
    pub version: Option<String>,
    pub depth: Option<u32>,
    pub project_root: Option<String>,
    pub strategy: Option<String>,
}

/// The full project listing: the rows, an optional default, and the count.
pub struct ProjectListResponse {
    pub projects: Vec<ProjectListItem>,
    pub default_project: Option<String>,
    pub total: usize,
}

/// What a scan of the projects directory found for one project: the
/// subdirectory's name and the sections read from its work-breakdown file.
pub struct ProjectScanItem {
    pub dir_name: String,
    pub project: ProjectConfig,
    pub wbs: Option<WbsConfig>,
}

/// A `ProjectListItem` as mathematical values.
pub ghost struct ProjectItemView {
    pub id: Seq<char>,
    pub name: Seq<char>,
    pub path: Seq<char>,
    pub status: Seq<char>,
    pub wbs_depth: Option<u32>,
    pub created_at: Option<Seq<char>>,
}

/// The mathematical value of one listing row.
pub open spec fn project_item_view(p: ProjectListItem) -> ProjectItemView {
    ProjectItemView {
        id: p.id@,
        name: p.name@,
        path: p.path@,
        status: p.status@,
        wbs_depth: p.wbs_depth,
        created_at: p.created_at.deep_view(),
    }
}

/// A project's effective status: the configured one, or `active`.
pub open spec fn spec_status_of(p: ProjectConfig) -> Seq<char> {
    match p.status {
        Some(s) => s@,
        None => "active"@,
    }
}

/// A project's effective depth: the project section's, else the wbs
/// section's, else 3.
pub open spec fn spec_depth_of(item: ProjectScanItem) -> Option<u32> {
    match item.project.wbs_depth {
        Some(d) => Some(d),
        None => match item.wbs {
            Some(w) => match w.depth {
                Some(d) => Some(d),
                None => Some(3u32),
            },
            None => Some(3u32),
        },
    }
}

/// Whether a scanned project passes the status filter: no filter passes
/// everything, a filter passes exactly its own status.
pub open spec fn spec_passes_filter(item: ProjectScanItem, filter: Option<Seq<char>>) -> bool {
    match filter {
        None => true,
        Some(f) => spec_status_of(item.project) == f,
    }
}

/// The listing row of one scanned project.
pub open spec fn spec_project_item_of(item: ProjectScanItem) -> ProjectItemView {
    ProjectItemView {
        id: item.project.id@,
        name: item.project.name@,
        path: item.dir_name@,
        status: spec_status_of(item.project),
        wbs_depth: spec_depth_of(item),
        created_at: item.project.created_at.deep_view(),
    }
}

/// The listing rows of a scan, filtered by status, in scan order.
pub open spec fn spec_project_items(items: Seq<ProjectScanItem>, filter: Option<Seq<char>>) -> Seq<
    ProjectItemView,
>
    decreases items.len(),
{
    if items.len() == 0 {
        Seq::empty()
    } else {
        let prev = spec_project_items(items.drop_last(), filter);
        let item = items.last();
        if spec_passes_filter(item, filter) {
            prev.push(spec_project_item_of(item))
        } else {
            prev
        }
    }
}

/// A row's key for the listing order: its creation date, the empty string
/// when it has none.
pub open spec fn created_key(p: ProjectListItem) -> Seq<char> {
    match p.created_at {
        Some(s) => s@,
        None => Seq::empty(),
    }
}

impl SortOrder for ProjectListItem {
    /// Newest creation date first.
    open spec fn precedes(self, other: Self) -> bool {
        chars_le(created_key(other), created_key(self))
    }

    proof fn lemma_total(a: Self, b: Self) {
        lemma_chars_le_total(created_key(b), created_key(a));
    }

    proof fn lemma_trans(a: Self, b: Self, c: Self) {
        lemma_chars_le_trans(created_key(c), created_key(b), created_key(a));
    }

    fn comes_before(&self, other: &Self) -> (r: bool) {
        let a = match &other.created_at {
            Some(s) => s.as_str(),
            None => "",
        };
        let b = match &self.created_at {
            Some(s) => s.as_str(),
            None => "",
        };
        proof {
            reveal_strlit("");
            assert(""@ =~= Seq::<char>::empty());
        }
        str_le(a, b)
    }
}

fn clone_opt_string(o: &Option<String>) -> (r: Option<String>)
    ensures
        r.deep_view() == o.deep_view(),
{
    match o {
        Some(s) => Some(s.clone()),
        None => None,
    }
}

/// Assemble the project listing from a scan of the projects directory:
/// exactly the projects passing the status filter appear, each row carrying
/// the project's effective status and depth, newest creation date first; the
/// count is the number of rows, and no default project is chosen.
pub fn build_project_list(items: &Vec<ProjectScanItem>, status_filter: &Option<String>) -> (r:
    ProjectListResponse)
    ensures
        ordered::<ProjectListItem>(r.projects@),
        r.projects@.map_values(|p: ProjectListItem| project_item_view(p)).to_multiset()
            == spec_project_items(items@, status_filter.deep_view()).to_multiset(),
        r.total == r.projects@.len(),
        r.default_project is None,
{
    let ghost filter_v = status_filter.deep_view();
    let mut rows: Vec<ProjectListItem> = Vec::new();
    let mut i: usize = 0;
    proof {
        assert(items@.take(0) =~= Seq::<ProjectScanItem>::empty());
        assert(rows@.map_values(|p: ProjectListItem| project_item_view(p)) =~= Seq::<
            ProjectItemView,
        >::empty());
    }
    while i < items.len()
        invariant
            i <= items@.len(),
            filter_v == status_filter.deep_view(),
            rows@.map_values(|p: ProjectListItem| project_item_view(p)) == spec_project_items(
                items@.take(i as int),
                filter_v,
            ),
        decreases items@.len() - i,
    {
        let item = &items[i];
        let status = match &item.project.status {
            Some(s) => s.clone(),
            None => String::from_str("active"),
        };
        let passes = match status_filter {
            Some(f) => str_eq(status.as_str(), f.as_str()),
            None => true,
        };
        if passes {
            let wbs_depth = match item.project.wbs_depth {
                Some(d) => Some(d),
                None => match &item.wbs {
                    Some(w) => match w.depth {
                        Some(d) => Some(d),
                        None => Some(3u32),
                    },
                    None => Some(3u32),
                },
            };
            let row = ProjectListItem {
                id: item.project.id.clone(),
                name: item.project.name.clone(),
                path: item.dir_name.clone(),
                status,
                wbs_depth,
                created_at: clone_opt_string(&item.project.created_at),
            };
            proof {
                assert(project_item_view(row) == spec_project_item_of(items@[i as int]));
            }
            rows.push(row);
        }
        proof {
            assert(items@.take(i + 1).drop_last() =~= items@.take(i as int));
            assert(items@.take(i + 1).last() == items@[i as int]);
            assert(rows@.map_values(|p: ProjectListItem| project_item_view(p))
                =~= spec_project_items(items@.take(i + 1), filter_v));
        }
        i += 1;
    }
    proof {
        assert(items@.take(items@.len() as int) =~= items@);
    }
    let ghost unsorted = rows@;
    let projects = sort_items(rows);
    proof {
        lemma_map_values_multiset(projects@, unsorted, |p: ProjectListItem| project_item_view(p));
    }
    let total = projects.len();
    ProjectListResponse { projects, default_project: None, total }
}

/// One file of a project's directory, as reported to consumers.
pub struct ProjectFile {
    pub name: String,
    pub path: String,
    pub relative_path: String,
    pub file_type: String,
    pub size: u64,
    pub created_at: String,
    pub updated_at: String,
}

/// What a scan of the project's directory found for one entry.
pub struct ProjectFileEntry {
    pub name: String,
    pub path: String,
    pub is_file: bool,
    pub size: u64,
    pub created_at: String,
    pub updated_at: String,
}

/// A `ProjectFile` as mathematical values.
pub ghost struct ProjectFileView {
    pub name: Seq<char>,
    pub path: Seq<char>,
    pub relative_path: Seq<char>,
    pub file_type: Seq<char>,
    pub size: u64,
    pub created_at: Seq<char>,
    pub updated_at: Seq<char>,
}

/// The mathematical value of one reported file.
pub open spec fn project_file_view(f: ProjectFile) -> ProjectFileView {
    ProjectFileView {
        name: f.name@,
        path: f.path@,
        relative_path: f.relative_path@,
        file_type: f.file_type@,
        size: f.size,
        created_at: f.created_at@,
        updated_at: f.updated_at@,
    }
}

/// The type a filename's extension is classified as, up to ASCII case.
pub open spec fn spec_file_type(name: Seq<char>) -> Seq<char> {
    let ext = ext_of(name);
    if eq_lower(ext, "md"@) {
        "markdown"@
    } else if eq_lower(ext, "png"@) || eq_lower(ext, "jpg"@) || eq_lower(ext, "jpeg"@)
        || eq_lower(ext, "gif"@) || eq_lower(ext, "svg"@) || eq_lower(ext, "webp"@) {
        "image"@
    } else if eq_lower(ext, "json"@) {
        "json"@
    } else {
        "other"@
    }
}

/// Classify a file by its extension.
pub fn get_file_type(filename: &str) -> (r: String)
    ensures
        r@ == spec_file_type(filename@),
{
    let ext = file_ext(filename);
    if str_eq_lower(ext, "md") {
        String::from_str("markdown")
    } else if str_eq_lower(ext, "png") || str_eq_lower(ext, "jpg") || str_eq_lower(ext, "jpeg")
        || str_eq_lower(ext, "gif") || str_eq_lower(ext, "svg") || str_eq_lower(ext, "webp") {
        String::from_str("image")
    } else if str_eq_lower(ext, "json") {
        String::from_str("json")
    } else {
        String::from_str("other")
    }
}

/// The file reported for one scanned entry.
pub open spec fn spec_project_file_of(e: ProjectFileEntry) -> ProjectFileView {
    ProjectFileView {
        name: e.name@,
        path: e.path@,
        relative_path: e.name@,
        file_type: spec_file_type(e.name@),
        size: e.size,
        created_at: e.created_at@,
        updated_at: e.updated_at@,
    }
}

/// The files of a scan, regular files only, in scan order.
pub open spec fn spec_project_files(entries: Seq<ProjectFileEntry>) -> Seq<ProjectFileView>
    decreases entries.len(),
{
    if entries.len() == 0 {
        Seq::empty()
    } else {
        let prev = spec_project_files(entries.drop_last());
        let e = entries.last();
        if e.is_file {
            prev.push(spec_project_file_of(e))
        } else {
            prev
        }
    }
}

impl SortOrder for ProjectFile {
    open spec fn precedes(self, other: Self) -> bool {
        chars_le(self.name@, other.name@)
    }

    proof fn lemma_total(a: Self, b: Self) {
        lemma_chars_le_total(a.name@, b.name@);
    }

    proof fn lemma_trans(a: Self, b: Self, c: Self) {
        lemma_chars_le_trans(a.name@, b.name@, c.name@);
    }

    fn comes_before(&self, other: &Self) -> (r: bool) {
        str_le(self.name.as_str(), other.name.as_str())
    }
}

/// Build the list of a project's own files from a scan of its directory:
/// exactly the regular files appear (subdirectories, the task folder among
/// them, do not), each classified by its extension, ordered by filename.
pub fn build_project_files(entries: &Vec<ProjectFileEntry>) -> (r: Vec<ProjectFile>)
    ensures
        ordered::<ProjectFile>(r@),
        r@.map_values(|f: ProjectFile| project_file_view(f)).to_multiset() == spec_project_files(
            entries@,
        ).to_multiset(),
{
    let mut files: Vec<ProjectFile> = Vec::new();
    let mut i: usize = 0;
    proof {
        assert(entries@.take(0) =~= Seq::<ProjectFileEntry>::empty());
        assert(files@.map_values(|f: ProjectFile| project_file_view(f)) =~= Seq::<
            ProjectFileView,
        >::empty());
    }
    while i < entries.len()
        invariant
            i <= entries@.len(),
            files@.map_values(|f: ProjectFile| project_file_view(f)) == spec_project_files(
                entries@.take(i as int),
            ),
        decreases entries@.len() - i,
    {
        let e = &entries[i];
        if e.is_file {
            let name = e.name.clone();
            let file_type = get_file_type(name.as_str());
            let f = ProjectFile {
                path: e.path.clone(),
                relative_path: name.clone(),
                name,
                file_type,
                size: e.size,
                created_at: e.created_at.clone(),
                updated_at: e.updated_at.clone(),
            };
            proof {
                assert(project_file_view(f) == spec_project_file_of(entries@[i as int]));
            }
            files.push(f);
        }
        proof {
            assert(entries@.take(i + 1).drop_last() =~= entries@.take(i as int));
            assert(entries@.take(i + 1).last() == entries@[i as int]);
            assert(files@.map_values(|f: ProjectFile| project_file_view(f))
                =~= spec_project_files(entries@.take(i + 1)));
        }
        i += 1;
    }
    proof {
        assert(entries@.take(entries@.len() as int) =~= entries@);
    }
    let ghost unsorted = files@;
    let r = sort_items(files);
    proof {
        lemma_map_values_multiset(r@, unsorted, |f: ProjectFile| project_file_view(f));
    }
    r
}

} // verus!
