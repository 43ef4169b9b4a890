use ownership_basics::roster::{list_names, list_powers, move_teams, roster_report};

fn heroes() -> [String; 2] {
    [String::from("Iron Man"), String::from("Thor")]
}

#[test]
fn names_are_listed_in_their_debug_form() {
    assert_eq!(list_names(&heroes()), "Hero names are: [\"Iron Man\", \"Thor\"]");
}

#[test]
fn listed_names_stay_with_their_owner() {
    let hero_names: [String; 2] = heroes();
    let first: String = list_names(&hero_names);
    assert_eq!(hero_names, heroes());
    let second: String = list_names(&hero_names);
    assert_eq!(first, second);
    assert_eq!(hero_names[0].as_bytes(), "Iron Man".as_bytes());
    assert_eq!(hero_names[1].as_bytes(), "Thor".as_bytes());
}

#[test]
fn listing_names_agrees_with_the_debug_form() {
    let names: [String; 2] = [String::from("Dr. \"Strange\""), String::from("")];
    assert_eq!(list_names(&names), format!("Hero names are: {:?}", names));
}

#[test]
fn a_move_resets_both_power_levels() {
    let mut hero_powers: [i32; 2] = [2999, 4500];
    let line: String = move_teams(heroes(), &mut hero_powers);
    assert_eq!(hero_powers, [0, 0]);
    assert_eq!(line, "Moving [\"Iron Man\", \"Thor\"] to another team");
}

#[test]
fn a_move_resets_whatever_the_levels_were() {
    let before: [[i32; 2]; 6] =
        [[0, 0], [1, -1], [-2999, 4500], [i32::MAX, i32::MIN], [i32::MIN, i32::MAX], [0, 7]];
    for powers in before {
        let mut hero_powers: [i32; 2] = powers;
        move_teams(heroes(), &mut hero_powers);
        assert_eq!(hero_powers[0], 0);
        assert_eq!(hero_powers[1], 0);
    }
}

#[test]
fn power_levels_are_listed_as_numerals() {
    assert_eq!(list_powers(&[0, 0]), "Hero powers are now: [0, 0]");
    assert_eq!(list_powers(&[2999, 4500]), "Hero powers are now: [2999, 4500]");
}

#[test]
fn listing_powers_agrees_with_the_debug_form() {
    let powers: [i32; 2] = [-12, i32::MIN];
    assert_eq!(list_powers(&powers), format!("Hero powers are now: {:?}", powers));
}

#[test]
fn the_report_of_a_move() {
    let mut hero_powers: [i32; 2] = [2999, 4500];
    let lines: Vec<String> = roster_report(heroes(), &mut hero_powers);
    assert_eq!(
        lines,
        vec![
            String::from("Hero names are: [\"Iron Man\", \"Thor\"]"),
            String::from("Moving [\"Iron Man\", \"Thor\"] to another team"),
            String::from("Hero powers are now: [0, 0]"),
        ]
    );
    assert_eq!(hero_powers, [0, 0]);
}
