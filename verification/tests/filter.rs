use cargo_project_finder::filter::{
    leaves_out, should_skip, starts_with_dot, Entry, HIDDEN_ATTRIBUTE,
};

fn entry(components: &[&str], attributes: Option<u32>) -> Entry {
    Entry {
        components: components.iter().map(|name| name.to_string()).collect(),
        file_name: components.last().map(|name| name.to_string()).unwrap_or_default(),
        parent: None,
        is_file: false,
        attributes,
    }
}

#[test]
fn names_starting_with_a_dot_are_hidden_names() {
    assert!(starts_with_dot(".git"));
    assert!(starts_with_dot("."));
    assert!(starts_with_dot(".."));
    assert!(!starts_with_dot("git"));
    assert!(!starts_with_dot("a.b"));
    assert!(!starts_with_dot(""));
    assert!(!starts_with_dot("é.x"));
}

#[test]
fn entry_with_plain_components_is_not_skipped() {
    assert!(!should_skip(&entry(&["/", "home", "user", "proj"], None)));
    assert!(!should_skip(&entry(&[], None)));
    assert!(!should_skip(&entry(&["a.b", "c."], None)));
}

#[test]
fn entry_with_a_dot_component_anywhere_is_skipped() {
    assert!(should_skip(&entry(&[".hidden"], None)));
    assert!(should_skip(&entry(&["/", "home", ".cargo", "registry"], None)));
    assert!(should_skip(&entry(&["/", "home", "user", ".git"], None)));
    assert!(should_skip(&entry(&[".", "proj"], None)));
    assert!(should_skip(&entry(&["..", "proj"], None)));
}

#[test]
fn hidden_attribute_alone_is_enough_to_skip() {
    assert_eq!(HIDDEN_ATTRIBUTE, 0x2);
    assert!(should_skip(&entry(&["C:", "data"], Some(0x2))));
    assert!(should_skip(&entry(&["C:", "data"], Some(0x22))));
    assert!(should_skip(&entry(&["C:", "data"], Some(u32::MAX))));
    assert!(!should_skip(&entry(&["C:", "data"], Some(0x0))));
    assert!(!should_skip(&entry(&["C:", "data"], Some(0x1))));
    assert!(!should_skip(&entry(&["C:", "data"], Some(0x20))));
    assert!(!should_skip(&entry(&["C:", "data"], Some(!0x2))));
}

#[test]
fn missing_attributes_fall_back_to_the_names() {
    assert!(should_skip(&entry(&["C:", ".data"], None)));
    assert!(should_skip(&entry(&["C:", ".data"], Some(0))));
    assert!(!should_skip(&entry(&["C:", "data"], None)));
}

#[test]
fn nothing_is_left_out_when_hidden_entries_are_not_skipped() {
    assert!(!leaves_out(false, &entry(&[".hidden"], None)));
    assert!(!leaves_out(false, &entry(&["data"], Some(0x2))));
    assert!(!leaves_out(false, &entry(&["data"], None)));
}

#[test]
fn hidden_entries_are_left_out_when_they_are_skipped() {
    assert!(leaves_out(true, &entry(&[".hidden"], None)));
    assert!(leaves_out(true, &entry(&["data"], Some(0x2))));
    assert!(!leaves_out(true, &entry(&["data"], None)));
}
