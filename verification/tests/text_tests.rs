use sql_entity_graph::sorting::stands_before;
use sql_entity_graph::text::{chars_of, ends_with, join_path, split_path, with_suffix};

fn s(text: &str) -> String {
    text.to_string()
}

#[test]
fn a_path_is_cut_before_its_last_segment() {
    assert_eq!(split_path(&s("a::b::c")), (s("a::b"), s("c")));
}

#[test]
fn a_path_of_one_segment_has_no_module_part() {
    assert_eq!(split_path(&s("abc")), (s(""), s("abc")));
}

#[test]
fn the_empty_path_is_one_empty_segment() {
    assert_eq!(split_path(&s("")), (s(""), s("")));
}

#[test]
fn three_colons_are_a_separator_and_a_colon() {
    assert_eq!(split_path(&s("a:::b")), (s("a"), s(":b")));
}

#[test]
fn a_path_may_begin_or_end_with_a_separator() {
    assert_eq!(split_path(&s("::x")), (s(""), s("x")));
    assert_eq!(split_path(&s("x::")), (s("x"), s("")));
}

#[test]
fn a_single_colon_separates_nothing() {
    assert_eq!(split_path(&s("a:b")), (s(""), s("a:b")));
}

#[test]
fn characters_beyond_ascii_are_kept_whole() {
    assert_eq!(split_path(&s("tiere::vögel::Möwe")), (s("tiere::vögel"), s("Möwe")));
    assert_eq!(chars_of("vö"), vec!['v', 'ö']);
}

#[test]
fn a_text_ends_with_its_suffixes_only() {
    assert!(ends_with(&s("crate::animals"), &s("animals")));
    assert!(ends_with(&s("crate::animals"), &s("")));
    assert!(ends_with(&s("animals"), &s("animals")));
    assert!(!ends_with(&s("animals"), &s("crate::animals")));
    assert!(!ends_with(&s("crate::animals"), &s("animal")));
    assert!(!ends_with(&s("crate::animals"), &s("crate")));
}

#[test]
fn module_and_name_are_joined_with_the_separator() {
    assert_eq!(join_path(&s("crate::animals"), &s("feed")), "crate::animals::feed");
    assert_eq!(join_path(&s(""), &s("feed")), "::feed");
}

#[test]
fn a_suffix_follows_the_text() {
    assert_eq!(with_suffix(&s("animal"), "_eq"), "animal_eq");
}

#[test]
fn texts_are_ordered_as_in_the_dictionary() {
    assert!(stands_before(&s("a"), &s("b")));
    assert!(stands_before(&s("a"), &s("ab")));
    assert!(stands_before(&s(""), &s("a")));
    assert!(stands_before(&s("src/a.rs"), &s("src/b.rs")));
    assert!(!stands_before(&s("b"), &s("a")));
    assert!(!stands_before(&s("ab"), &s("a")));
    assert!(!stands_before(&s("a"), &s("a")));
    assert!(!stands_before(&s(""), &s("")));
    assert!(stands_before(&s("Z"), &s("a")));
}
