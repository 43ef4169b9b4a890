//! A set of movie titles, shown while it is lent and shown once more when it
//! is handed over for good.

use vstd::prelude::*;
use crate::text::{list, listed, quote_all, quoted_all, texts_of};
use crate::text_set::TextSet;
use vstd::string::StringExecFns;

verus! {

/// The titles between braces, each in its debug form.
pub open spec fn titles_listing(titles: Seq<Seq<char>>) -> Seq<char> {
    listed(seq!['{'], quoted_all(titles), seq!['}'])
}

/// What [`display_movie_reference`] says of a set that lists `titles`.
pub open spec fn displayed_line(titles: Seq<Seq<char>>) -> Seq<char> {
    "Movies in set: "@ + titles_listing(titles)
}

/// What [`movies_after_display`] says of a set that lists `titles`.
pub open spec fn after_display_line(titles: Seq<Seq<char>>) -> Seq<char> {
    "After display_movie_reference: "@ + titles_listing(titles)
}

/// What [`transfer_movie_ownership`] says of a set that lists `titles`.
pub open spec fn transferred_line(titles: Seq<Seq<char>>) -> Seq<char> {
    "Transferred movies: "@ + titles_listing(titles)
}

/// The listing of `set` between braces, each title in its debug form.
fn braced_titles(set: &TextSet) -> (text: String)
    ensures
        text@ == titles_listing(set.listing()),
{
    proof {
        reveal_strlit("{");
        reveal_strlit("}");
    }
    let quoted = quote_all(set.members());
    list("{", &quoted, "}")
}

/// The line that shows the titles of a set. The set is only lent: it stays
/// with the caller, who can go on using it.
pub fn display_movie_reference(set: &TextSet) -> (line: String)
    ensures
        line@ == displayed_line(set.listing()),
{
    let mut line = String::from_str("Movies in set: ");
    line.append(braced_titles(set).as_str());
    line
}

/// The line in which the owner of a set shows its titles after having lent
/// it for display.
pub fn movies_after_display(set: &TextSet) -> (line: String)
    ensures
        line@ == after_display_line(set.listing()),
{
    let mut line = String::from_str("After display_movie_reference: ");
    line.append(braced_titles(set).as_str());
    line
}

/// The line that shows the titles of a set handed over for good. The set
/// ends here: the caller has given it away and cannot name it again.
pub fn transfer_movie_ownership(set: TextSet) -> (line: String)
    ensures
        line@ == transferred_line(set.listing()),
{
    let mut line = String::from_str("Transferred movies: ");
    line.append(braced_titles(&set).as_str());
    line
}

/// The three lines about a set of titles, in order: the set shown while it
/// is lent, shown again by its owner after the loan, and shown a last time
/// when it is handed over. All three show the same titles in the same order.
pub fn movie_report(movies: TextSet) -> (lines: Vec<String>)
    ensures
        texts_of(lines@) == seq![
            displayed_line(movies.listing()),
            after_display_line(movies.listing()),
            transferred_line(movies.listing()),
        ],
{
    let ghost titles = movies.listing();
    let mut lines: Vec<String> = Vec::new();
    lines.push(display_movie_reference(&movies));
    lines.push(movies_after_display(&movies));
    lines.push(transfer_movie_ownership(movies));
    assert(texts_of(lines@) =~= seq![
        displayed_line(titles),
        after_display_line(titles),
        transferred_line(titles),
    ]);
    lines
}

} // verus!
