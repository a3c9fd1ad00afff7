use file_bridge::error::{FsError, FsStep};
use file_bridge::path_guard::{
    is_within, nearest_real, render, split_path, walk_from, PathGuard, Resolved,
};

fn parts(items: &[&str]) -> Vec<Vec<char>> {
    items.iter().map(|s| s.chars().collect()).collect()
}

fn guard(root: &str) -> PathGuard {
    PathGuard::new(root).unwrap()
}

fn resolved(root: &str, user: &str) -> Option<String> {
    match guard(root).resolve(user) {
        Ok(path) => Some(path.to_text()),
        Err(e) => {
            assert!(matches!(e, FsError::PathEscape));
            None
        }
    }
}

#[test]
fn resolve_rejects_parent_escape() {
    let result = guard("/a/b").resolve("../../etc/passwd");
    assert!(matches!(result, Err(FsError::PathEscape)));
}

#[test]
fn resolve_joins_relative_path_to_root() {
    let path = guard("/a/b").resolve("c/d.txt").unwrap();
    assert_eq!(path.to_text(), "/a/b/c/d.txt");
    assert_eq!(path.depth(), 4);
}

#[test]
fn resolve_names_the_root_itself() {
    assert_eq!(resolved("/a/b", "").unwrap(), "/a/b");
    assert_eq!(resolved("/a/b", ".").unwrap(), "/a/b");
    assert_eq!(resolved("/a/b", "./").unwrap(), "/a/b");
    assert_eq!(resolved("/a/b", "/a/b").unwrap(), "/a/b");
    assert_eq!(resolved("/a/b", "/a/b/").unwrap(), "/a/b");
    assert_eq!(resolved("/a/b", "c/..").unwrap(), "/a/b");
}

#[test]
fn resolve_drops_dots_and_doubled_separators() {
    assert_eq!(resolved("/a/b", "c//d/./e/").unwrap(), "/a/b/c/d/e");
    assert_eq!(resolved("/a/b", "c/../d").unwrap(), "/a/b/d");
    assert_eq!(resolved("/a/b", "...").unwrap(), "/a/b/...");
    assert_eq!(resolved("/a/b", "..c").unwrap(), "/a/b/..c");
    assert_eq!(resolved("/a/b", ".c/d..").unwrap(), "/a/b/.c/d..");
}

#[test]
fn resolve_admits_a_way_out_and_back_in() {
    assert_eq!(resolved("/a/b", "../b/c").unwrap(), "/a/b/c");
    assert_eq!(resolved("/a/b", "../../a/b/c").unwrap(), "/a/b/c");
    assert_eq!(resolved("/a/b", "../../../../a/b").unwrap(), "/a/b");
}

#[test]
fn resolve_rejects_every_other_way_out() {
    assert!(resolved("/a/b", "..").is_none());
    assert!(resolved("/a/b", "../c").is_none());
    assert!(resolved("/a/b", "c/../..").is_none());
    assert!(resolved("/a/b", "c/../../b2").is_none());
    assert!(resolved("/a/b", "../..").is_none());
}

#[test]
fn resolve_takes_an_absolute_path_as_it_stands() {
    assert_eq!(resolved("/a/b", "/a/b/c").unwrap(), "/a/b/c");
    assert_eq!(resolved("/a/b", "//a/./b/c/../d").unwrap(), "/a/b/d");
    assert!(resolved("/a/b", "/etc/passwd").is_none());
    assert!(resolved("/a/b", "/a").is_none());
    assert!(resolved("/a/b", "/").is_none());
}

#[test]
fn resolve_compares_components_not_text() {
    assert!(resolved("/a/b", "/a/bc").is_none());
    assert!(resolved("/a/b", "/a/b.txt").is_none());
    assert!(resolved("/a/b", "../bc/d").is_none());
    assert_eq!(resolved("/a/b", "bc").unwrap(), "/a/b/bc");
}

#[test]
fn root_of_the_file_system_holds_everything() {
    assert_eq!(resolved("/", "").unwrap(), "/");
    assert_eq!(resolved("/", "..").unwrap(), "/");
    assert_eq!(resolved("/", "../../x").unwrap(), "/x");
    assert_eq!(resolved("/", "/etc/passwd").unwrap(), "/etc/passwd");
}

#[test]
fn guard_needs_an_absolute_root() {
    assert!(PathGuard::new("").is_none());
    assert!(PathGuard::new("a/b").is_none());
    assert!(PathGuard::new("./a").is_none());
    assert!(PathGuard::new("../a").is_none());
    assert!(PathGuard::new("/").is_some());
    assert!(PathGuard::new("/a").is_some());
}

#[test]
fn guard_root_is_canonical() {
    assert_eq!(guard("/a/b").root_text(), "/a/b");
    assert_eq!(guard("/a/b/").root_text(), "/a/b");
    assert_eq!(guard("//a/./b/../c").root_text(), "/a/c");
    assert_eq!(guard("/..").root_text(), "/");
    assert_eq!(guard("/").root_text(), "/");
    assert_eq!(resolved("/a/x/../b/", "c").unwrap(), "/a/b/c");
}

#[test]
fn resolving_an_admitted_path_again_changes_nothing() {
    let g = guard("/srv/shared");
    for user in ["", "a", "a/b/../c", "./x//y/", "/srv/shared/z", "../shared/q"] {
        let first = g.resolve(user).unwrap().to_text();
        let second = g.resolve(&first).unwrap().to_text();
        assert_eq!(first, second);
    }
}

#[test]
fn relative_paths_without_parent_steps_are_admitted() {
    let g = guard("/srv/shared");
    for user in ["a", "a/b/c", "./a/./b", "a//b", "...", "a/.../b", "x.y/..z"] {
        let text = g.resolve(user).unwrap().to_text();
        assert!(text.starts_with("/srv/shared"));
        assert!(g.contains(&text));
    }
}

#[test]
fn contains_checks_absolute_paths() {
    let g = guard("/a/b");
    assert!(g.contains("/a/b"));
    assert!(g.contains("/a/b/c/d"));
    assert!(g.contains("/a/b/../b/c"));
    assert!(!g.contains("/a/bc"));
    assert!(!g.contains("/a"));
    assert!(!g.contains("/a/b/.."));
    assert!(!g.contains("a/b"));
    assert!(!g.contains("c"));
    assert!(!g.contains(""));
}

#[test]
fn paths_with_characters_beyond_ascii() {
    assert_eq!(resolved("/données", "été/ß.txt").unwrap(), "/données/été/ß.txt");
    assert!(resolved("/données", "../donnees").is_none());
}

#[test]
fn split_path_keeps_empty_pieces() {
    assert_eq!(split_path(""), parts(&[""]));
    assert_eq!(split_path("a"), parts(&["a"]));
    assert_eq!(split_path("a/b"), parts(&["a", "b"]));
    assert_eq!(split_path("/"), parts(&["", ""]));
    assert_eq!(split_path("/a//b/"), parts(&["", "a", "", "b", ""]));
    assert_eq!(split_path("../x"), parts(&["..", "x"]));
}

#[test]
fn walk_from_follows_each_piece() {
    assert_eq!(walk_from(parts(&["a"]), &parts(&["b", "", ".", "c"])), parts(&["a", "b", "c"]));
    assert_eq!(walk_from(parts(&["a", "b"]), &parts(&["..", "c"])), parts(&["a", "c"]));
    assert_eq!(walk_from(parts(&[]), &parts(&["..", "..", "x"])), parts(&["x"]));
    assert_eq!(walk_from(parts(&["a"]), &parts(&[])), parts(&["a"]));
    assert_eq!(walk_from(parts(&["a"]), &parts(&["..", ".."])), parts(&[]));
}

#[test]
fn is_within_is_a_prefix_of_components() {
    assert!(is_within(&parts(&[]), &parts(&[])));
    assert!(is_within(&parts(&[]), &parts(&["a"])));
    assert!(is_within(&parts(&["a", "b"]), &parts(&["a", "b"])));
    assert!(is_within(&parts(&["a", "b"]), &parts(&["a", "b", "c"])));
    assert!(!is_within(&parts(&["a", "b"]), &parts(&["a"])));
    assert!(!is_within(&parts(&["a", "b"]), &parts(&["a", "bc"])));
    assert!(!is_within(&parts(&["a", "b"]), &parts(&["x", "b", "c"])));
}

#[test]
fn render_puts_a_separator_before_each_component() {
    assert_eq!(render(&parts(&[])), "/");
    assert_eq!(render(&parts(&["a"])), "/a");
    assert_eq!(render(&parts(&["a", "b.txt"])), "/a/b.txt");
}

#[test]
fn resolve_checked_rejects_a_link_that_leads_out() {
    let g = guard("/a/b");
    let result = g.resolve_checked("link/passwd", Some("/etc/passwd"));
    assert!(matches!(result, Err(FsError::PathEscape)));
    let result = g.resolve_checked("link", Some("/etc"));
    assert!(matches!(result, Err(FsError::PathEscape)));
    let result = g.resolve_checked("c", Some("/a/bc"));
    assert!(matches!(result, Err(FsError::PathEscape)));
    let result = g.resolve_checked("c", Some("/a"));
    assert!(matches!(result, Err(FsError::PathEscape)));
}

#[test]
fn resolve_checked_admits_what_really_lies_inside() {
    let g = guard("/a/b");
    let path = g.resolve_checked("c/d.txt", Some("/a/b/c/d.txt")).unwrap();
    assert_eq!(path.to_text(), "/a/b/c/d.txt");
    let path = g.resolve_checked("link/x", Some("/a/b/elsewhere/x")).unwrap();
    assert_eq!(path.to_text(), "/a/b/link/x");
    let path = g.resolve_checked("new/file", Some("/a/b")).unwrap();
    assert_eq!(path.to_text(), "/a/b/new/file");
    let path = g.resolve_checked("", Some("/a/b/")).unwrap();
    assert_eq!(path.to_text(), "/a/b");
}

#[test]
fn resolve_checked_without_a_real_path_goes_by_the_text() {
    let g = guard("/a/b");
    assert_eq!(g.resolve_checked("c/d.txt", None).unwrap().to_text(), "/a/b/c/d.txt");
    assert!(matches!(g.resolve_checked("../../etc/passwd", None), Err(FsError::PathEscape)));
}

#[test]
fn resolve_checked_rejects_by_the_text_whatever_the_real_path() {
    let g = guard("/a/b");
    let result = g.resolve_checked("../../etc/passwd", Some("/a/b/c"));
    assert!(matches!(result, Err(FsError::PathEscape)));
}

#[test]
fn resolve_checked_rejects_a_real_path_that_is_not_absolute() {
    let g = guard("/a/b");
    assert!(matches!(g.resolve_checked("c", Some("a/b/c")), Err(FsError::PathEscape)));
    assert!(matches!(g.resolve_checked("c", Some("")), Err(FsError::PathEscape)));
}

#[test]
fn places_run_from_the_path_up_to_the_root() {
    let g = guard("/a/b");
    let path = g.resolve("c/d/e.txt").unwrap();
    assert_eq!(g.places(&path), vec!["/a/b/c/d/e.txt", "/a/b/c/d", "/a/b/c", "/a/b"]);
    let path = g.resolve("").unwrap();
    assert_eq!(g.places(&path), vec!["/a/b"]);
    let top = guard("/");
    let path = top.resolve("x").unwrap();
    assert_eq!(top.places(&path), vec!["/x", "/"]);
    let path = top.resolve("").unwrap();
    assert_eq!(top.places(&path), vec!["/"]);
}

#[test]
fn places_of_a_path_of_another_guard_are_none() {
    let path = guard("/x").resolve("y").unwrap();
    assert!(guard("/a/b").places(&path).is_empty());
}

#[test]
fn nearest_real_is_the_first_place_that_exists() {
    let found = vec![
        Resolved::Missing,
        Resolved::Missing,
        Resolved::Real("/a/b/c".to_string()),
        Resolved::Real("/a/b".to_string()),
    ];
    assert_eq!(nearest_real(&found).unwrap().map(|s| s.as_str()), Some("/a/b/c"));
    let found = vec![Resolved::Real("/etc".to_string()), Resolved::Failed { reason: "x".to_string() }];
    assert_eq!(nearest_real(&found).unwrap().map(|s| s.as_str()), Some("/etc"));
    assert!(nearest_real(&vec![Resolved::Missing, Resolved::Missing]).unwrap().is_none());
    assert!(nearest_real(&Vec::new()).unwrap().is_none());
}

#[test]
fn nearest_real_reports_what_the_file_system_could_not_tell() {
    let found = vec![
        Resolved::Missing,
        Resolved::Failed { reason: "permission denied".to_string() },
        Resolved::Real("/a/b".to_string()),
    ];
    match nearest_real(&found) {
        Err(FsError::IoError { step, reason }) => {
            assert_eq!(step, FsStep::ResolvePath);
            assert_eq!(reason, "permission denied");
        }
        other => panic!("unexpected result: {:?}", other),
    }
}

#[test]
fn link_inside_the_folder_that_leads_out_is_caught() {
    let g = guard("/a/b");
    let path = g.resolve("link/new.txt").unwrap();
    assert_eq!(g.places(&path), vec!["/a/b/link/new.txt", "/a/b/link", "/a/b"]);
    let found = vec![
        Resolved::Missing,
        Resolved::Real("/etc".to_string()),
        Resolved::Real("/a/b".to_string()),
    ];
    let real = nearest_real(&found).unwrap().map(|s| s.as_str());
    assert!(matches!(g.resolve_checked("link/new.txt", real), Err(FsError::PathEscape)));
}

#[test]
fn child_text_appends_the_name() {
    let g = guard("/a/b");
    assert_eq!(g.resolve("c").unwrap().child_text("d.txt"), "/a/b/c/d.txt");
    assert_eq!(g.resolve("").unwrap().child_text("x"), "/a/b/x");
    assert_eq!(guard("/").resolve("").unwrap().child_text("x"), "/x");
    assert_eq!(g.resolve("c").unwrap().child_text("é"), "/a/b/c/é");
}
