use orchay::config::update_recent_paths;
use orchay::documents::{DocumentInfo, TaskFileEntry, build_task_documents, determine_doc_type};
use orchay::files::{check_orchay_structure, encode_base64, init_response};
use orchay::paths::{orchay_root_path, projects_dir_path, settings_file_path, task_dir_path,
    task_document_rel_path, wbs_path_for};
use orchay::projects::{ProjectConfig, ProjectFile, ProjectFileEntry, ProjectScanItem, WbsConfig,
    build_project_files, build_project_list, get_file_type};

fn config(id: &str, status: Option<&str>, depth: Option<u32>, created: Option<&str>) -> ProjectConfig {
    ProjectConfig {
        id: String::from(id),
        name: String::from(id),
        description: None,
        version: None,
        status: status.map(String::from),
        wbs_depth: depth,
        created_at: created.map(String::from),
        updated_at: None,
        scheduled_start: None,
        scheduled_end: None,
    }
}

#[test]
fn doc_type_marks() {
    assert_eq!(determine_doc_type("010-basic-design.md"), "design");
    assert_eq!(determine_doc_type("기본설계.md"), "design");
    assert_eq!(determine_doc_type("020-detail-design.md"), "design");
    assert_eq!(determine_doc_type("상세설계-v2.md"), "design");
    assert_eq!(determine_doc_type("implementation-notes.md"), "implementation");
    assert_eq!(determine_doc_type("integration-test-plan.md"), "test");
    assert_eq!(determine_doc_type("user-manual.md"), "manual");
    assert_eq!(determine_doc_type("prd.md"), "prd");
    assert_eq!(determine_doc_type("요구사항.md"), "prd");
    assert_eq!(determine_doc_type("code-review.md"), "review");
    assert_eq!(determine_doc_type("anything-else.md"), "design");
    // the first matching mark decides
    assert_eq!(determine_doc_type("prd-review.md"), "prd");
}

#[test]
fn file_types_by_extension() {
    assert_eq!(get_file_type("readme.md"), "markdown");
    assert_eq!(get_file_type("shot.png"), "image");
    assert_eq!(get_file_type("shot.JPG"), "image");
    assert_eq!(get_file_type("anim.webp"), "image");
    assert_eq!(get_file_type("data.json"), "json");
    assert_eq!(get_file_type("notes.txt"), "other");
    assert_eq!(get_file_type("noextension"), "other");
    assert_eq!(get_file_type("trailing."), "other");
    assert_eq!(get_file_type("archive.tar.md"), "markdown");
}

fn task_entry(name: &str) -> TaskFileEntry {
    TaskFileEntry {
        name: String::from(name),
        size: Some(10),
        created_at: Some(String::from("2024-01-01T00:00:00+00:00")),
        updated_at: None,
    }
}

#[test]
fn task_documents_keep_markdown_sorted_by_name() {
    let entries = vec![
        task_entry("b-review.md"),
        task_entry("notes.txt"),
        task_entry("a-prd.md"),
        task_entry(".md"),
    ];
    let docs: Vec<DocumentInfo> = build_task_documents("T1", &entries);
    assert_eq!(docs.len(), 2);
    assert_eq!(docs[0].name, "a-prd.md");
    assert_eq!(docs[0].path, "tasks/T1/a-prd.md");
    assert_eq!(docs[0].doc_type, "prd");
    assert_eq!(docs[0].stage, "current");
    assert_eq!(docs[0].exists, true);
    assert_eq!(docs[0].size, Some(10));
    assert_eq!(docs[1].name, "b-review.md");
    assert_eq!(docs[1].doc_type, "review");
}

#[test]
fn project_list_sorts_newest_first_and_defaults() {
    let items = vec![
        ProjectScanItem {
            dir_name: String::from("old"),
            project: config("old", None, None, Some("2023-01-01")),
            wbs: None,
        },
        ProjectScanItem {
            dir_name: String::from("new"),
            project: config("new", Some("active"), Some(4), Some("2024-06-01")),
            wbs: None,
        },
        ProjectScanItem {
            dir_name: String::from("wbsdepth"),
            project: config("wbsdepth", None, None, None),
            wbs: Some(WbsConfig {
                version: None,
                depth: Some(2),
                project_root: None,
                strategy: None,
            }),
        },
    ];
    let r = build_project_list(&items, &None);
    assert_eq!(r.total, 3);
    assert_eq!(r.default_project, None);
    assert_eq!(r.projects[0].id, "new");
    assert_eq!(r.projects[0].wbs_depth, Some(4));
    assert_eq!(r.projects[1].id, "old");
    assert_eq!(r.projects[1].status, "active");
    assert_eq!(r.projects[1].wbs_depth, Some(3));
    // a project without a creation date sorts last
    assert_eq!(r.projects[2].id, "wbsdepth");
    assert_eq!(r.projects[2].wbs_depth, Some(2));
    assert_eq!(r.projects[2].path, "wbsdepth");
}

#[test]
fn project_list_applies_status_filter() {
    let items = vec![
        ProjectScanItem {
            dir_name: String::from("a"),
            project: config("a", Some("archived"), None, None),
            wbs: None,
        },
        ProjectScanItem {
            dir_name: String::from("b"),
            project: config("b", None, None, None),
            wbs: None,
        },
    ];
    let r = build_project_list(&items, &Some(String::from("archived")));
    assert_eq!(r.total, 1);
    assert_eq!(r.projects[0].id, "a");
    // the default status passes an "active" filter
    let r = build_project_list(&items, &Some(String::from("active")));
    assert_eq!(r.total, 1);
    assert_eq!(r.projects[0].id, "b");
}

#[test]
fn project_files_keep_regular_files_sorted() {
    let entries = vec![
        ProjectFileEntry {
            name: String::from("tasks"),
            path: String::from("/b/.orchay/projects/p/tasks"),
            is_file: false,
            size: 0,
            created_at: String::new(),
            updated_at: String::new(),
        },
        ProjectFileEntry {
            name: String::from("b.json"),
            path: String::from("/b/.orchay/projects/p/b.json"),
            is_file: true,
            size: 7,
            created_at: String::from("2024-01-01T00:00:00+00:00"),
            updated_at: String::from("2024-01-02T00:00:00+00:00"),
        },
        ProjectFileEntry {
            name: String::from("a.md"),
            path: String::from("/b/.orchay/projects/p/a.md"),
            is_file: true,
            size: 3,
            created_at: String::new(),
            updated_at: String::new(),
        },
    ];
    let files: Vec<ProjectFile> = build_project_files(&entries);
    assert_eq!(files.len(), 2);
    assert_eq!(files[0].name, "a.md");
    assert_eq!(files[0].relative_path, "a.md");
    assert_eq!(files[0].file_type, "markdown");
    assert_eq!(files[1].name, "b.json");
    assert_eq!(files[1].file_type, "json");
    assert_eq!(files[1].size, 7);
}

#[test]
fn recent_paths_move_to_front_dedup_and_cap() {
    let recent = vec![
        String::from("/one"),
        String::from("/two"),
        String::from("/three"),
    ];
    let r = update_recent_paths(&recent, "/two");
    assert_eq!(r, vec![String::from("/two"), String::from("/one"), String::from("/three")]);

    let recent = vec![
        String::from("/a"),
        String::from("/b"),
        String::from("/c"),
        String::from("/d"),
        String::from("/e"),
    ];
    let r = update_recent_paths(&recent, "/new");
    assert_eq!(r.len(), 5);
    assert_eq!(r[0], "/new");
    assert_eq!(r[4], "/d");
}

#[test]
fn init_status_requires_root_settings_projects() {
    let s = check_orchay_structure(true, true, false, true);
    let r = init_response(s);
    assert!(r.success);
    assert!(r.data.initialized);
    assert_eq!(r.data.status, s);

    let s = check_orchay_structure(true, false, true, true);
    let r = init_response(s);
    assert!(!r.data.initialized);
}

#[test]
fn base64_of_known_bytes() {
    assert_eq!(encode_base64(&vec![b'a', b'b', b'c']), "YWJj");
    assert_eq!(encode_base64(&vec![b'a']), "YQ==");
    assert_eq!(encode_base64(&Vec::new()), "");
    let r = encode_base64(&vec![1, 2, 3, 4]);
    assert_eq!(r.len(), 8);
}

#[test]
fn path_conventions() {
    assert_eq!(orchay_root_path("/base"), "/base/.orchay");
    assert_eq!(projects_dir_path("/base"), "/base/.orchay/projects");
    assert_eq!(wbs_path_for("/base", "p1"), "/base/.orchay/projects/p1/wbs.yaml");
    assert_eq!(task_dir_path("/base", "p1", "T9"), "/base/.orchay/projects/p1/tasks/T9");
    assert_eq!(settings_file_path("/base", "ui"), "/base/.orchay/settings/ui.json");
    assert_eq!(task_document_rel_path("T9", "a.md"), "tasks/T9/a.md");
}
