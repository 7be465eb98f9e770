use file_renamer::action::{Modify, StateValue};

#[test]
fn test_affix() {
    let mut modify = Modify::new_affix();
    let pattern = String::from("modified");
    modify.prefix_mode(&pattern);
    let mut test_path = String::from("/A/B/FooBar.txt");

    test_path = modify.action(&test_path);
    assert_eq!(test_path, String::from("/A/B/modifiedFooBar.txt"));

    modify.suffix_mode(&pattern);

    test_path = modify.action(&test_path);
    assert_eq!(test_path, String::from("/A/B/modifiedFooBarmodified.txt"));
}

#[test]
fn test_find_and_replace() {
    let mut modify = Modify::new_op();
    modify.set_pattern("Foo");
    modify.find_and_replace_op(&"Modified".to_string());
    let mut test_path = String::from("/A/B/FooBar.txt");

    test_path = modify.action(&test_path);
    assert_eq!(test_path, String::from("/A/B/ModifiedBar.txt"));

    modify.set_pattern("Bar");
    modify.find_and_replace_op(&"".to_string());
    test_path = modify.action(&test_path);
    assert_eq!(test_path, String::from("/A/B/Modified.txt"));
}

#[test]
fn test_regex_replace() {
    let mut modify = Modify::new_op();

    modify.set_pattern(r"^Foo");
    modify.regex_op(&"Modified".to_string());

    let mut test_path = String::from("/A/B/FooBar.txt");
    test_path = modify.action(&test_path);

    assert_eq!(test_path, String::from("/A/B/ModifiedBar.txt"));
}

#[test]
fn test_regex_fail() {
    // The pattern `(` is not closed, so the regex does not compile and the
    // transformation degrades to the identity.
    let mut modify = Modify::new_op();

    modify.set_pattern(r"(");
    modify.regex_op(&"test".to_string());

    let mut test_path = String::from("/A/B/FooBar.txt");
    test_path = modify.action(&test_path);

    assert_eq!(test_path, String::from("/A/B/FooBar.txt"));
}

#[test]
fn replace_touches_only_the_leftmost_occurrence() {
    let mut modify = Modify::new_op();
    modify.set_pattern("X");
    modify.find_and_replace_op(&"Y".to_string());
    let out = modify.action(&String::from("/d/aXbXc.txt"));
    assert_eq!(out, String::from("/d/aYbXc.txt"));
}

#[test]
fn replace_with_empty_pattern_prepends() {
    // The empty pattern matches at index 0, so replacing its first
    // occurrence prepends the replacement to the base name.
    let mut modify = Modify::new_op();
    modify.set_pattern("");
    modify.find_and_replace_op(&"Z".to_string());
    let out = modify.action(&String::from("/d/abc.txt"));
    assert_eq!(out, String::from("/d/Zabc.txt"));
}

#[test]
fn remove_deletes_every_occurrence() {
    let mut modify = Modify::new_op();
    modify.set_pattern("o");
    modify.remove_op();
    let out = modify.action(&String::from("/A/B/Foo.txt"));
    assert_eq!(out, String::from("/A/B/F.txt"));

    let mut all = Modify::new_op();
    all.set_pattern("abc");
    all.remove_op();
    let gone = all.action(&String::from("/d/abcabc.txt"));
    assert_eq!(gone, String::from("/d/.txt"));
}

#[test]
fn remove_scans_left_to_right_without_rescanning() {
    // Deleting "ab" from "aabb" removes the one occurrence the scan finds;
    // the seam the deletion creates is not rescanned.
    let mut modify = Modify::new_op();
    modify.set_pattern("ab");
    modify.remove_op();
    let out = modify.action(&String::from("/d/aabb.txt"));
    assert_eq!(out, String::from("/d/ab.txt"));
}

#[test]
fn remove_with_empty_pattern_changes_nothing() {
    let mut modify = Modify::new_op();
    modify.set_pattern("");
    modify.remove_op();
    let out = modify.action(&String::from("/d/abc.txt"));
    assert_eq!(out, String::from("/d/abc.txt"));
}

#[test]
fn prefix_then_suffix_brackets_the_base_name() {
    let mut modify = Modify::new_affix();
    modify.prefix_mode("X");
    let once = modify.action(&String::from("/d/name.txt"));
    modify.suffix_mode("X");
    let twice = modify.action(&once);
    assert_eq!(twice, String::from("/d/XnameX.txt"));
}

#[test]
fn fresh_replace_op_is_identity() {
    let modify = Modify::new_op();
    let out = modify.action(&String::from("/A/B/FooBar.txt"));
    assert_eq!(out, String::from("/A/B/FooBar.txt"));
}

#[test]
fn update_values_swaps_pattern_and_replacement() {
    let mut modify = Modify::new_op();
    modify.update_values(StateValue::ReplaceValue("Bar".to_string(), "Baz".to_string()));
    let out = modify.action(&String::from("/A/B/FooBar.txt"));
    assert_eq!(out, String::from("/A/B/FooBaz.txt"));

    // An affix value does not fit a substitution and leaves it unchanged.
    modify.update_values(StateValue::AffixValue("zzz".to_string()));
    let again = modify.action(&String::from("/A/B/FooBar.txt"));
    assert_eq!(again, String::from("/A/B/FooBaz.txt"));
}

#[test]
fn update_values_swaps_affix_text() {
    let mut modify = Modify::new_affix();
    modify.suffix_mode("old");
    modify.update_values(StateValue::AffixValue("new".to_string()));
    let out = modify.action(&String::from("/d/f.txt"));
    assert_eq!(out, String::from("/d/fnew.txt"));
}

#[test]
fn path_without_file_name_passes_through() {
    let mut modify = Modify::new_affix();
    modify.prefix_mode("x");
    let out = modify.action(&String::from("/A/B/"));
    assert_eq!(out, String::from("/A/B/"));
}

#[test]
fn hidden_file_keeps_its_whole_name_as_stem() {
    // A leading dot marks a hidden file, not an extension.
    let mut modify = Modify::new_affix();
    modify.suffix_mode("_bak");
    let out = modify.action(&String::from("/home/u/.gitignore"));
    assert_eq!(out, String::from("/home/u/.gitignore_bak"));
}

#[test]
fn relative_path_without_directory() {
    let mut modify = Modify::new_affix();
    modify.prefix_mode("x");
    assert_eq!(modify.action(&String::from("FooBar.txt")), String::from("xFooBar.txt"));
}

#[test]
fn file_without_extension_is_all_stem() {
    let mut modify = Modify::new_op();
    modify.set_pattern("Make");
    modify.find_and_replace_op(&"Bake".to_string());
    assert_eq!(modify.action(&String::from("/d/Makefile")), String::from("/d/Bakefile"));
}

#[test]
fn only_the_last_dot_starts_the_extension() {
    let mut modify = Modify::new_affix();
    modify.suffix_mode("_x");
    assert_eq!(modify.action(&String::from("/d/a.tar.gz")), String::from("/d/a.tar_x.gz"));
}

#[test]
fn non_ascii_names_are_handled_per_character() {
    let mut modify = Modify::new_affix();
    modify.suffix_mode("_ök");
    assert_eq!(
        modify.action(&String::from("/d/Grüße.txt")),
        String::from("/d/Grüße_ök.txt")
    );
}

#[test]
fn extension_is_untouched_by_every_kind() {
    let mut replace = Modify::new_op();
    replace.set_pattern("txt");
    replace.find_and_replace_op(&"md".to_string());
    // The pattern only occurs in the extension, so nothing changes.
    let out = replace.action(&String::from("/d/notes.txt"));
    assert_eq!(out, String::from("/d/notes.txt"));

    let mut remove = Modify::new_op();
    remove.set_pattern("t");
    remove.remove_op();
    // Only the stem's occurrences go; the extension keeps its own.
    let removed = remove.action(&String::from("/d/tottot.txt"));
    assert_eq!(removed, String::from("/d/oo.txt"));
}
