//! A roster of two heroes: their names and their power levels.
//!
//! The names can be lent for a listing, which leaves them with their owner,
//! or handed over for good together with a reset of the power levels.

use vstd::prelude::*;
use crate::conversion::{decimal_text, int_to_text};
use crate::text::{list, listed, quote, quoted_all, texts_of};
use vstd::string::StringExecFns;

verus! {

/// The names between square brackets, each in its debug form.
pub open spec fn names_listing(names: Seq<Seq<char>>) -> Seq<char> {
    listed(seq!['['], quoted_all(names), seq![']'])
}

/// The power levels between square brackets, each as its decimal numeral.
pub open spec fn powers_listing(powers: Seq<i32>) -> Seq<char> {
    listed(seq!['['], Seq::new(powers.len(), |i: int| decimal_text(powers[i] as int)), seq![']'])
}

/// What [`list_names`] says of `names`.
pub open spec fn names_line(names: Seq<Seq<char>>) -> Seq<char> {
    "Hero names are: "@ + names_listing(names)
}

/// What [`move_teams`] says of `names`.
pub open spec fn moving_line(names: Seq<Seq<char>>) -> Seq<char> {
    "Moving "@ + names_listing(names) + " to another team"@
}

/// What [`list_powers`] says of `powers`.
pub open spec fn powers_line(powers: Seq<i32>) -> Seq<char> {
    "Hero powers are now: "@ + powers_listing(powers)
}

/// The two names between square brackets, each in its debug form.
fn bracketed_names(names: &[String; 2]) -> (text: String)
    ensures
        text@ == names_listing(texts_of(names@)),
{
    proof {
        reveal_strlit("[");
        reveal_strlit("]");
    }
    let mut quoted: Vec<String> = Vec::new();
    quoted.push(quote(names[0].as_str()));
    quoted.push(quote(names[1].as_str()));
    assert(texts_of(quoted@) =~= quoted_all(texts_of(names@)));
    list("[", &quoted, "]")
}

/// The line that lists the heroes' names. The names are only lent: they stay
/// with the caller, who can go on using them.
pub fn list_names(arr: &[String; 2]) -> (line: String)
    ensures
        line@ == names_line(texts_of(arr@)),
{
    let mut line = String::from_str("Hero names are: ");
    line.append(bracketed_names(arr).as_str());
    line
}

/// Moves the heroes to another team. The names are handed over for good and
/// end here; the power levels are only lent, and both are set to zero. Gives
/// the line that announces the move.
pub fn move_teams(names: [String; 2], powers: &mut [i32; 2]) -> (line: String)
    ensures
        line@ == moving_line(texts_of(names@)),
        final(powers)@ == seq![0i32, 0i32],
{
    let mut line = String::from_str("Moving ");
    line.append(bracketed_names(&names).as_str());
    line.append(" to another team");
    powers[0] = 0;
    powers[1] = 0;
    line
}

/// The line that lists the heroes' power levels.
pub fn list_powers(powers: &[i32; 2]) -> (line: String)
    ensures
        line@ == powers_line(powers@),
{
    proof {
        reveal_strlit("[");
        reveal_strlit("]");
    }
    let mut written: Vec<String> = Vec::new();
    written.push(int_to_text(powers[0]));
    written.push(int_to_text(powers[1]));
    assert(texts_of(written@) =~= Seq::new(
        powers@.len(),
        |i: int| decimal_text(powers@[i] as int),
    ));
    let mut line = String::from_str("Hero powers are now: ");
    line.append(list("[", &written, "]").as_str());
    line
}

/// The three lines of a team move, in order: the names, listed while they are
/// only lent; the move, announced from the same names once they are handed
/// over; and the power levels after it, which are both zero.
pub fn roster_report(hero_names: [String; 2], hero_powers: &mut [i32; 2]) -> (lines: Vec<String>)
    ensures
        texts_of(lines@) == seq![
            names_line(texts_of(hero_names@)),
            moving_line(texts_of(hero_names@)),
            powers_line(seq![0i32, 0i32]),
        ],
        final(hero_powers)@ == seq![0i32, 0i32],
{
    let mut lines: Vec<String> = Vec::new();
    lines.push(list_names(&hero_names));
    lines.push(move_teams(hero_names, hero_powers));
    lines.push(list_powers(hero_powers));
    assert(texts_of(lines@) =~= seq![
        names_line(texts_of(hero_names@)),
        moving_line(texts_of(hero_names@)),
        powers_line(seq![0i32, 0i32]),
    ]);
    lines
}

} // verus!
