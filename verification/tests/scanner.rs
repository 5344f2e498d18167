use cargo_project_finder::filter::Entry;
use cargo_project_finder::project::Project;
use cargo_project_finder::scanner::{is_manifest_entry, Action, Scanner, WalkEvent};

/// A file or directory of a tree held in memory.
struct Node {
    name: &'static str,
    /// `Some` for a file: its text, or `None` where it cannot be read.
    file: Option<Option<&'static str>>,
    attributes: Option<u32>,
    children: Vec<Node>,
}

fn dir(name: &'static str, children: Vec<Node>) -> Node {
    Node { name, file: None, attributes: None, children }
}

fn file(name: &'static str, contents: &'static str) -> Node {
    Node { name, file: Some(Some(contents)), attributes: None, children: Vec::new() }
}

fn unreadable(name: &'static str) -> Node {
    Node { name, file: Some(None), attributes: None, children: Vec::new() }
}

fn entry_at(components: &[String], is_file: bool, attributes: Option<u32>) -> Entry {
    let parent = if components.len() > 1 {
        Some(components[..components.len() - 1].join("/").replacen("//", "/", 1))
    } else {
        None
    };
    Entry {
        components: components.to_vec(),
        file_name: components.last().cloned().unwrap_or_default(),
        parent,
        is_file,
        attributes,
    }
}

/// Walks `node` depth first, parents before children, and does what the
/// scanner says after each entry.
fn walk(scanner: Scanner, above: &[String], node: &Node) -> Scanner {
    let mut components = above.to_vec();
    components.push(node.name.to_string());
    let entry = entry_at(&components, node.file.is_some(), node.attributes);
    let (mut scanner, action) = scanner.step(WalkEvent::Entry(&entry));
    match action {
        Action::Prune => scanner,
        Action::ReadManifest => {
            let contents = node.file.unwrap_or(None);
            let (scanner, next) = scanner.step(WalkEvent::Manifest(&entry, contents));
            assert_eq!(next, Action::Continue);
            scanner
        }
        Action::Continue => {
            for child in &node.children {
                scanner = walk(scanner, &components, child);
            }
            scanner
        }
    }
}

fn scan_tree(root: &Node, skip_hidden: bool) -> Vec<Project> {
    walk(Scanner::new(skip_hidden), &["/".to_string()], root).into_projects()
}

/// Reports `events` one after the other, and gives what was found and the
/// answer to each.
fn replay(skip_hidden: bool, events: &[WalkEvent]) -> (Vec<Project>, Vec<Action>) {
    let mut scanner = Scanner::new(skip_hidden);
    let mut actions = Vec::new();
    for event in events {
        let (next, action) = scanner.step(*event);
        scanner = next;
        actions.push(action);
    }
    (scanner.into_projects(), actions)
}

fn project(path: &str, name: Option<&str>) -> Project {
    Project { path: path.to_string(), package_name: name.map(|name| name.to_string()) }
}

fn manifest_entry(dir: &str) -> Entry {
    Entry {
        components: vec!["/".to_string(), dir.to_string(), "Cargo.toml".to_string()],
        file_name: "Cargo.toml".to_string(),
        parent: Some(format!("/{}", dir)),
        is_file: true,
        attributes: None,
    }
}

fn sample_tree() -> Node {
    dir(
        "root",
        vec![
            dir("proj", vec![file("Cargo.toml", "[package]\nname = \"demo\"\n")]),
            dir(".hidden", vec![file("Cargo.toml", "[package]\nname = \"secret\"\n")]),
        ],
    )
}

#[test]
fn default_scan_finds_the_visible_project_only() {
    let found = scan_tree(&sample_tree(), true);
    assert_eq!(found, vec![project("/root/proj", Some("demo"))]);
}

#[test]
fn scan_without_filter_finds_the_hidden_project_too() {
    let found = scan_tree(&sample_tree(), false);
    assert_eq!(
        found,
        vec![project("/root/proj", Some("demo")), project("/root/.hidden", Some("secret"))]
    );
}

#[test]
fn manifest_with_marker_yields_one_project_at_its_directory() {
    let entry = manifest_entry("app");
    let contents = "[package]\nname = \"app\"\n";
    let (found, actions) = replay(
        true,
        &[WalkEvent::Entry(&entry), WalkEvent::Manifest(&entry, Some(contents))],
    );
    assert_eq!(actions, vec![Action::ReadManifest, Action::Continue]);
    assert_eq!(found, vec![project("/app", Some("app"))]);
}

#[test]
fn manifest_without_name_yields_a_project_without_name() {
    let entry = manifest_entry("app");
    let contents = "[package]\nversion = \"1\"\n";
    let (found, _) = replay(
        true,
        &[WalkEvent::Entry(&entry), WalkEvent::Manifest(&entry, Some(contents))],
    );
    assert_eq!(found, vec![project("/app", None)]);
}

#[test]
fn manifest_without_marker_yields_no_project() {
    let entry = manifest_entry("ws");
    let contents = "[workspace]\nmembers = [\"a\"]\nname = \"not-a-package\"\n";
    let (found, actions) = replay(
        true,
        &[WalkEvent::Entry(&entry), WalkEvent::Manifest(&entry, Some(contents))],
    );
    assert_eq!(actions, vec![Action::ReadManifest, Action::Continue]);
    assert!(found.is_empty());
}

#[test]
fn every_manifest_yields_its_own_project_in_walk_order() {
    let tree = dir(
        "root",
        vec![
            file("Cargo.toml", "[package]\nname = \"top\"\n"),
            dir("b", vec![file("Cargo.toml", "[package]\nname = \"same\"\n")]),
            dir("a", vec![file("Cargo.toml", "[package]\nname = \"same\"\n")]),
            dir("a", vec![file("Cargo.toml", "[package]\nname = \"same\"\n")]),
        ],
    );
    assert_eq!(
        scan_tree(&tree, true),
        vec![
            project("/root", Some("top")),
            project("/root/b", Some("same")),
            project("/root/a", Some("same")),
            project("/root/a", Some("same")),
        ]
    );
}

#[test]
fn other_files_and_directories_are_passed_over() {
    let tree = dir(
        "root",
        vec![
            file("cargo.toml", "[package]\nname = \"lower\"\n"),
            file("Cargo.toml.orig", "[package]\nname = \"orig\"\n"),
            file("README.md", "[package]"),
            dir("Cargo.toml", vec![file("main.rs", "[package]")]),
            dir("deep", vec![dir("er", vec![file("Cargo.toml", "[package]\nname = \"deep\"\n")])]),
        ],
    );
    assert_eq!(scan_tree(&tree, true), vec![project("/root/deep/er", Some("deep"))]);
}

#[test]
fn entry_that_is_no_regular_file_is_never_read() {
    let mut entry = manifest_entry("app");
    entry.is_file = false;
    assert!(!is_manifest_entry(&entry));
    let (found, actions) = replay(
        false,
        &[WalkEvent::Entry(&entry), WalkEvent::Manifest(&entry, Some("[package]"))],
    );
    assert_eq!(actions, vec![Action::Continue, Action::Continue]);
    assert!(found.is_empty());
}

#[test]
fn manifest_without_parent_is_never_read() {
    let mut entry = manifest_entry("app");
    entry.parent = None;
    assert!(!is_manifest_entry(&entry));
    let (found, actions) = replay(
        false,
        &[WalkEvent::Entry(&entry), WalkEvent::Manifest(&entry, Some("[package]"))],
    );
    assert_eq!(actions, vec![Action::Continue, Action::Continue]);
    assert!(found.is_empty());
}

#[test]
fn hidden_directory_is_pruned_with_all_below_it() {
    let tree = dir(
        "root",
        vec![
            dir(
                ".cache",
                vec![dir("plain", vec![file("Cargo.toml", "[package]\nname = \"cached\"\n")])],
            ),
            dir("src", vec![file(".Cargo.toml", "[package]")]),
        ],
    );
    assert!(scan_tree(&tree, true).is_empty());
    assert_eq!(scan_tree(&tree, false), vec![project("/root/.cache/plain", Some("cached"))]);
}

#[test]
fn no_project_of_a_default_scan_lies_on_a_hidden_path() {
    let tree = dir(
        "root",
        vec![
            dir(".a", vec![file("Cargo.toml", "[package]\nname = \"a\"\n")]),
            dir("b", vec![dir(".c", vec![file("Cargo.toml", "[package]\nname = \"c\"\n")])]),
            dir("d", vec![file("Cargo.toml", "[package]\nname = \"d\"\n")]),
            dir("e.f", vec![file("Cargo.toml", "[package]\nname = \"f\"\n")]),
        ],
    );
    let found = scan_tree(&tree, true);
    assert_eq!(found, vec![project("/root/d", Some("d")), project("/root/e.f", Some("f"))]);
    for project in &found {
        assert!(project.path.split('/').all(|component| !component.starts_with('.')));
    }
    let all = scan_tree(&tree, false);
    assert_eq!(all.len(), 4);
    assert!(all.iter().any(|project| project.path.contains("/.")));
}

#[test]
fn directory_hidden_by_attribute_is_pruned() {
    let mut hidden = dir("secret", vec![file("Cargo.toml", "[package]\nname = \"s\"\n")]);
    hidden.attributes = Some(0x2);
    let tree = dir("root", vec![hidden, dir("open", vec![file("Cargo.toml", "[package]")])]);
    assert_eq!(scan_tree(&tree, true), vec![project("/root/open", None)]);
    assert_eq!(scan_tree(&tree, false).len(), 2);
}

#[test]
fn hidden_manifest_is_refused_even_when_its_text_is_reported() {
    let entry = manifest_entry(".hidden");
    let contents = "[package]\nname = \"secret\"\n";
    let events = [WalkEvent::Entry(&entry), WalkEvent::Manifest(&entry, Some(contents))];
    let (found, actions) = replay(true, &events);
    assert_eq!(actions, vec![Action::Prune, Action::Continue]);
    assert!(found.is_empty());
    let (found, actions) = replay(false, &events);
    assert_eq!(actions, vec![Action::ReadManifest, Action::Continue]);
    assert_eq!(found, vec![project("/.hidden", Some("secret"))]);
}

#[test]
fn walk_of_a_missing_root_finds_nothing() {
    let (found, actions) = replay(true, &[WalkEvent::Failed]);
    assert_eq!(actions, vec![Action::Continue]);
    assert!(found.is_empty());
    assert!(Scanner::new(true).into_projects().is_empty());
    assert!(Scanner::new(false).into_projects().is_empty());
}

#[test]
fn unreadable_manifest_is_left_out_and_its_siblings_are_found() {
    let tree = dir(
        "root",
        vec![
            dir("first", vec![file("Cargo.toml", "[package]\nname = \"first\"\n")]),
            dir("locked", vec![unreadable("Cargo.toml")]),
            dir("last", vec![file("Cargo.toml", "[package]\nname = \"last\"\n")]),
        ],
    );
    assert_eq!(
        scan_tree(&tree, true),
        vec![project("/root/first", Some("first")), project("/root/last", Some("last"))]
    );
}

#[test]
fn failed_entries_do_not_stop_the_scan() {
    let first = manifest_entry("first");
    let last = manifest_entry("last");
    let (found, actions) = replay(
        true,
        &[
            WalkEvent::Failed,
            WalkEvent::Entry(&first),
            WalkEvent::Manifest(&first, Some("[package]\nname = \"first\"\n")),
            WalkEvent::Failed,
            WalkEvent::Manifest(&last, None),
            WalkEvent::Failed,
            WalkEvent::Entry(&last),
            WalkEvent::Manifest(&last, Some("[package]\nname = \"last\"\n")),
        ],
    );
    assert_eq!(actions[1], Action::ReadManifest);
    assert_eq!(actions[6], Action::ReadManifest);
    assert_eq!(actions.iter().filter(|action| **action == Action::Continue).count(), 6);
    assert_eq!(found, vec![project("/first", Some("first")), project("/last", Some("last"))]);
}

#[test]
fn two_stretches_of_events_find_what_each_finds_in_turn() {
    let first = manifest_entry("first");
    let hidden = manifest_entry(".hidden");
    let last = manifest_entry("last");
    let head = [
        WalkEvent::Entry(&first),
        WalkEvent::Manifest(&first, Some("[package]\nname = \"first\"\n")),
        WalkEvent::Entry(&hidden),
    ];
    let tail = [
        WalkEvent::Manifest(&hidden, Some("[package]\nname = \"hidden\"\n")),
        WalkEvent::Failed,
        WalkEvent::Manifest(&last, Some("[package]\n")),
    ];
    let mut all = head.to_vec();
    all.extend_from_slice(&tail);
    for skip_hidden in [true, false] {
        let mut expected = replay(skip_hidden, &head).0;
        expected.extend(replay(skip_hidden, &tail).0);
        assert_eq!(replay(skip_hidden, &all).0, expected);
    }
    assert_eq!(replay(true, &all).0.len(), 2);
    assert_eq!(replay(false, &all).0.len(), 3);
}
