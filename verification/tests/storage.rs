use openby::storage::{directory_for, directory_needed};

#[test]
fn directory_for_keeps_a_parent_that_is_not_empty() {
    assert_eq!(directory_for(Some("a/b".to_string())), Some("a/b".to_string()));
    assert_eq!(directory_for(Some(".".to_string())), Some(".".to_string()));
    assert_eq!(directory_for(Some("/".to_string())), Some("/".to_string()));
}

#[test]
fn directory_for_drops_no_parent_and_the_empty_one() {
    assert_eq!(directory_for(None), None);
    assert_eq!(directory_for(Some("".to_string())), None);
}

#[test]
fn directory_needed_is_the_parent_of_the_path() {
    assert_eq!(directory_needed("a/b/config"), Some("a/b".to_string()));
    assert_eq!(directory_needed("./test_config"), Some(".".to_string()));
    assert_eq!(directory_needed("/etc/openby"), Some("/etc".to_string()));
    assert_eq!(
        directory_needed("~/.config/openby/config"),
        Some("~/.config/openby".to_string())
    );
}

#[test]
fn directory_needed_is_none_for_a_bare_file_name() {
    assert_eq!(directory_needed("test_config"), None);
    assert_eq!(directory_needed(""), None);
    assert_eq!(directory_needed("/"), None);
}
