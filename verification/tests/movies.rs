use ownership_basics::movies::{
    display_movie_reference, movie_report, movies_after_display, transfer_movie_ownership,
};
use ownership_basics::text_set::TextSet;
use std::collections::HashSet;

fn movies() -> TextSet {
    let mut movie_set: TextSet = TextSet::new();
    movie_set.insert(String::from("Shazam"));
    movie_set.insert(String::from("Batman v Superman"));
    movie_set
}

#[test]
fn a_lent_set_is_shown() {
    assert_eq!(
        display_movie_reference(&movies()),
        "Movies in set: {\"Shazam\", \"Batman v Superman\"}"
    );
}

#[test]
fn a_lent_set_stays_with_its_owner() {
    let movie_set: TextSet = movies();
    let line: String = display_movie_reference(&movie_set);
    assert_eq!(movie_set.len(), 2);
    assert!(movie_set.contains("Shazam"));
    assert!(movie_set.contains("Batman v Superman"));
    assert_eq!(
        movie_set.members(),
        &vec![String::from("Shazam"), String::from("Batman v Superman")]
    );
    assert_eq!(display_movie_reference(&movie_set), line);
    assert_eq!(
        movies_after_display(&movie_set),
        "After display_movie_reference: {\"Shazam\", \"Batman v Superman\"}"
    );
}

#[test]
fn a_set_handed_over_is_shown() {
    assert_eq!(
        transfer_movie_ownership(movies()),
        "Transferred movies: {\"Shazam\", \"Batman v Superman\"}"
    );
}

#[test]
fn the_empty_set_is_shown_as_a_pair_of_braces() {
    assert_eq!(display_movie_reference(&TextSet::new()), "Movies in set: {}");
    assert_eq!(transfer_movie_ownership(TextSet::new()), "Transferred movies: {}");
}

#[test]
fn titles_are_shown_in_their_debug_form() {
    let mut set: TextSet = TextSet::new();
    set.insert(String::from("The \"Batman\""));
    assert_eq!(display_movie_reference(&set), "Movies in set: {\"The \\\"Batman\\\"\"}");
}

#[test]
fn the_report_of_a_set() {
    let lines: Vec<String> = movie_report(movies());
    assert_eq!(
        lines,
        vec![
            String::from("Movies in set: {\"Shazam\", \"Batman v Superman\"}"),
            String::from("After display_movie_reference: {\"Shazam\", \"Batman v Superman\"}"),
            String::from("Transferred movies: {\"Shazam\", \"Batman v Superman\"}"),
        ]
    );
}

#[test]
fn showing_a_set_agrees_with_the_debug_form() {
    let none: HashSet<&str> = HashSet::new();
    assert_eq!(display_movie_reference(&TextSet::new()), format!("Movies in set: {:?}", none));

    let one: HashSet<&str> = HashSet::from(["Dr. \"No\""]);
    let same: TextSet = TextSet::from_items(vec![String::from("Dr. \"No\"")]);
    assert_eq!(display_movie_reference(&same), format!("Movies in set: {:?}", one));
    assert_eq!(transfer_movie_ownership(same), format!("Transferred movies: {:?}", one));
}

#[test]
fn a_shown_set_lists_each_title_once() {
    let two: HashSet<&str> = HashSet::from(["Shazam", "Batman v Superman"]);
    let line: String = display_movie_reference(&movies());
    let one_way: String = String::from("Movies in set: {\"Shazam\", \"Batman v Superman\"}");
    let other_way: String = String::from("Movies in set: {\"Batman v Superman\", \"Shazam\"}");
    let by_hashing: String = format!("Movies in set: {:?}", two);
    assert!(line == one_way || line == other_way);
    assert!(by_hashing == one_way || by_hashing == other_way);
}
