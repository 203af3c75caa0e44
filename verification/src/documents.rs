//! Task documents: classifying a document by its filename and building the
//! list of a task's documents that consumers see.

use vstd::prelude::*;
use crate::paths::task_document_rel_path;
use crate::sort::{SortOrder, lemma_map_values_multiset, ordered, sort_items};
use crate::text::{chars_le, contains_seq, ends_with, lemma_chars_le_total, lemma_chars_le_trans,
    str_contains, str_ends_with, str_le};

verus! {

/// One document of a task, as reported to consumers.
pub struct DocumentInfo {
    pub name: String,
    pub path: String,
    pub exists: bool,
    pub doc_type: String,
    pub stage: String,
    pub size: Option<u64>,
    pub created_at: Option<String>,
    pub updated_at: Option<String>,
}

/// A `DocumentInfo` as mathematical values.
pub ghost struct DocumentInfoView {
    pub name: Seq<char>,
    pub path: Seq<char>,
    pub exists: bool,
    pub doc_type: Seq<char>,
    pub stage: Seq<char>,
    pub size: Option<u64>,
    pub created_at: Option<Seq<char>>,
    pub updated_at: Option<Seq<char>>,
}

/// The mathematical value of one `DocumentInfo`.
pub open spec fn doc_view(d: DocumentInfo) -> DocumentInfoView {
    DocumentInfoView {
        name: d.name@,
        path: d.path@,
        exists: d.exists,
        doc_type: d.doc_type@,
        stage: d.stage@,
        size: d.size,
        created_at: d.created_at.deep_view(),
        updated_at: d.updated_at.deep_view(),
    }
}

/// The document type a filename is classified as: the first matching mark in
/// the filename decides, and a filename with no mark counts as a design
/// document.
pub open spec fn spec_doc_type(name: Seq<char>) -> Seq<char> {
    if contains_seq(name, "basic-design"@) || contains_seq(name, "기본설계"@) {
        "design"@
    } else if contains_seq(name, "detail-design"@) || contains_seq(name, "상세설계"@) {
        "design"@
    } else if contains_seq(name, "implementation"@) {
        "implementation"@
    } else if contains_seq(name, "integration-test"@) {
        "test"@
    } else if contains_seq(name, "manual"@) {
        "manual"@
    } else if contains_seq(name, "prd"@) || contains_seq(name, "요구사항"@) {
        "prd"@
    } else if contains_seq(name, "review"@) {
        "review"@
    } else {
        "design"@
    }
}

/// Classify a document by the marks in its filename.
pub fn determine_doc_type(filename: &str) -> (r: String)
    ensures
        r@ == spec_doc_type(filename@),
{
    if str_contains(filename, "basic-design") || str_contains(filename, "기본설계") {
        String::from_str("design")
    } else if str_contains(filename, "detail-design") || str_contains(filename, "상세설계") {
        String::from_str("design")
    } else if str_contains(filename, "implementation") {
        String::from_str("implementation")
    } else if str_contains(filename, "integration-test") {
        String::from_str("test")
    } else if str_contains(filename, "manual") {
        String::from_str("manual")
    } else if str_contains(filename, "prd") || str_contains(filename, "요구사항") {
        String::from_str("prd")
    } else if str_contains(filename, "review") {
        String::from_str("review")
    } else {
        String::from_str("design")
    }
}

/// What a directory scan of the task's folder reports for one regular file.
pub struct TaskFileEntry {
    pub name: String,
    pub size: Option<u64>,
    pub created_at: Option<String>,
    pub updated_at: Option<String>,
}

/// A filename that counts as a markdown document: it has a `.md` extension
/// behind a nonempty stem.
pub open spec fn is_md_name(name: Seq<char>) -> bool {
    name.len() > 3 && ends_with(name, ".md"@)
}

/// The document derived from one file of the task's folder.
pub open spec fn spec_document_of(task_id: Seq<char>, e: TaskFileEntry) -> DocumentInfoView {
    DocumentInfoView {
        name: e.name@,
        path: "tasks/"@ + task_id + "/"@ + e.name@,
        exists: true,
        doc_type: spec_doc_type(e.name@),
        stage: "current"@,
        size: e.size,
        created_at: e.created_at.deep_view(),
        updated_at: e.updated_at.deep_view(),
    }
}

/// The documents of a task, one per markdown file, in scan order.
pub open spec fn spec_task_documents(task_id: Seq<char>, entries: Seq<TaskFileEntry>) -> Seq<
    DocumentInfoView,
>
    decreases entries.len(),
{
    if entries.len() == 0 {
        Seq::empty()
    } else {
        let prev = spec_task_documents(task_id, entries.drop_last());
        let e = entries.last();
        if is_md_name(e.name@) {
            prev.push(spec_document_of(task_id, e))
        } else {
            prev
        }
    }
}

impl SortOrder for DocumentInfo {
    open spec fn precedes(self, other: Self) -> bool {
        chars_le(self.name@, other.name@)
    }

    proof fn lemma_total(a: Self, b: Self) {
        lemma_chars_le_total(a.name@, b.name@);
    }

    proof fn lemma_trans(a: Self, b: Self, c: Self) {
        lemma_chars_le_trans(a.name@, b.name@, c.name@);
    }

    fn comes_before(&self, other: &Self) -> (r: bool) {
        str_le(self.name.as_str(), other.name.as_str())
    }
}

fn clone_opt_string(o: &Option<String>) -> (r: Option<String>)
    ensures
        r.deep_view() == o.deep_view(),
{
    match o {
        Some(s) => Some(s.clone()),
        None => None,
    }
}

/// Build the list of a task's documents from what a scan of its folder
/// found: exactly the markdown files become documents, each classified by
/// its filename and addressed relative to the project directory, and the
/// list is ordered by filename.
pub fn build_task_documents(task_id: &str, entries: &Vec<TaskFileEntry>) -> (r: Vec<
    DocumentInfo,
>)
    ensures
        ordered::<DocumentInfo>(r@),
        r@.map_values(|d: DocumentInfo| doc_view(d)).to_multiset() == spec_task_documents(
            task_id@,
            entries@,
        ).to_multiset(),
{
    let mut docs: Vec<DocumentInfo> = Vec::new();
    let mut i: usize = 0;
    proof {
        assert(entries@.take(0) =~= Seq::<TaskFileEntry>::empty());
        assert(docs@.map_values(|d: DocumentInfo| doc_view(d)) =~= Seq::<
            DocumentInfoView,
        >::empty());
    }
    while i < entries.len()
        invariant
            i <= entries@.len(),
            docs@.map_values(|d: DocumentInfo| doc_view(d)) == spec_task_documents(
                task_id@,
                entries@.take(i as int),
            ),
        decreases entries@.len() - i,
    {
        let e = &entries[i];
        let n = e.name.unicode_len();
        if n > 3 && str_ends_with(e.name.as_str(), ".md") {
            let name = e.name.clone();
            let doc_type = determine_doc_type(name.as_str());
            let doc = DocumentInfo {
                path: task_document_rel_path(task_id, name.as_str()),
                name,
                exists: true,
                doc_type,
                stage: String::from_str("current"),
                size: e.size,
                created_at: clone_opt_string(&e.created_at),
                updated_at: clone_opt_string(&e.updated_at),
            };
            proof {
                assert(doc_view(doc) == spec_document_of(task_id@, entries@[i as int]));
            }
            docs.push(doc);
        }
        proof {
            assert(entries@.take(i + 1).drop_last() =~= entries@.take(i as int));
            assert(entries@.take(i + 1).last() == entries@[i as int]);
            assert(docs@.map_values(|d: DocumentInfo| doc_view(d)) =~= spec_task_documents(
                task_id@,
                entries@.take(i + 1),
            ));
        }
        i += 1;
    }
    proof {
        assert(entries@.take(entries@.len() as int) =~= entries@);
    }
    let ghost unsorted = docs@;
    let r = sort_items(docs);
    proof {
        lemma_map_values_multiset(r@, unsorted, |d: DocumentInfo| doc_view(d));
    }
    r
}

} // verus!
