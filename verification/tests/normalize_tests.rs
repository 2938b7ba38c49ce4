use project_launcher::candidate::Candidate;
use project_launcher::normalize::{
    normalize, separators_to_spaces, title_case_word, title_case_words,
};

#[test]
fn separators_and_capital_become_words() {
    assert_eq!(normalize("my-cool_Project"), "My Cool Project");
}

#[test]
fn camel_case_boundaries_are_split() {
    assert_eq!(normalize("fooBarBaz"), "Foo Bar Baz");
}

#[test]
fn empty_name_gives_empty_label() {
    assert_eq!(normalize(""), "");
}

#[test]
fn only_separators_give_empty_label() {
    assert_eq!(normalize("-_-__"), "");
}

#[test]
fn acronym_is_flattened() {
    assert_eq!(normalize("HTTPServer"), "Httpserver");
    assert_eq!(normalize("myHTTPServer"), "My Httpserver");
    assert_eq!(normalize("fooBAR"), "Foo Bar");
}

#[test]
fn runs_of_separators_collapse() {
    assert_eq!(normalize("--alpha__beta--"), "Alpha Beta");
    assert_eq!(normalize("  hello \t  world\n"), "Hello World");
}

#[test]
fn same_name_gives_same_label() {
    let names = ["my-cool_Project", "fooBarBaz", "", "a", "ßeta", "x-Y_z"];
    for name in names {
        assert_eq!(normalize(name), normalize(name));
    }
}

#[test]
fn digits_do_not_make_a_boundary() {
    assert_eq!(normalize("v2Beta"), "V2beta");
    assert_eq!(normalize("web3App"), "Web3app");
}

#[test]
fn upper_case_mapping_may_grow() {
    assert_eq!(normalize("ßeta"), "SSeta");
    assert_eq!(normalize("éCOLE"), "É Cole");
    assert_eq!(normalize("École"), "École");
}

#[test]
fn boundary_is_found_in_any_script() {
    assert_eq!(normalize("caféBar"), "Café Bar");
    assert_eq!(normalize("größeÄnderung"), "Größe Änderung");
    assert_eq!(normalize("мойПроект"), "Мой Проект");
}

#[test]
fn single_letters() {
    assert_eq!(normalize("a"), "A");
    assert_eq!(normalize("aB"), "A B");
    assert_eq!(normalize("aBcD"), "A Bc D");
}

#[test]
fn separators_to_spaces_touches_nothing_else() {
    assert_eq!(separators_to_spaces("a-b_c d"), "a b c d");
    assert_eq!(separators_to_spaces("fooBar"), "fooBar");
    assert_eq!(separators_to_spaces(""), "");
}

#[test]
fn title_case_word_raises_first_and_lowers_rest() {
    assert_eq!(title_case_word("wORD"), "Word");
    assert_eq!(title_case_word("x"), "X");
    assert_eq!(title_case_word("ABC"), "Abc");
    assert_eq!(title_case_word(""), "");
}

#[test]
fn title_case_words_joins_with_single_spaces() {
    assert_eq!(title_case_words("foo   bar"), "Foo Bar");
    assert_eq!(title_case_words("   "), "");
    assert_eq!(title_case_words("one"), "One");
    assert_eq!(title_case_words("a B c"), "A B C");
}

#[test]
fn candidate_label_is_normalized_name() {
    let c = Candidate::new("my-cool_Project".to_string(), "/home/u/dev/my-cool_Project".to_string());
    assert_eq!(c.raw_name(), "my-cool_Project");
    assert_eq!(c.display_label(), "My Cool Project");
    assert_eq!(c.location(), "/home/u/dev/my-cool_Project");
    let d = Candidate::new("my-cool_Project".to_string(), "/elsewhere".to_string());
    assert_eq!(c.display_label(), d.display_label());
}
