//! A book title that is lent to be announced and stays with its owner.

use vstd::prelude::*;
use crate::text::texts_of;
use vstd::string::StringExecFns;

verus! {

/// What [`borrow_title`] says of a title.
pub open spec fn borrowed_line(title: Seq<char>) -> Seq<char> {
    "This is my book title: "@ + title
}

/// What [`keep_title`] says of a title.
pub open spec fn kept_line(title: Seq<char>) -> Seq<char> {
    "I still own the book "@ + title
}

/// The line that announces a title. The title is only lent: it stays with
/// the caller, who can go on using it.
pub fn borrow_title(new_title: &String) -> (line: String)
    ensures
        line@ == borrowed_line(new_title@),
{
    let mut line = String::from_str("This is my book title: ");
    line.append(new_title.as_str());
    line
}

/// The line in which the owner of a title says that the title is still
/// theirs.
pub fn keep_title(book_title: &String) -> (line: String)
    ensures
        line@ == kept_line(book_title@),
{
    let mut line = String::from_str("I still own the book ");
    line.append(book_title.as_str());
    line
}

/// The two lines about a title, in order: the title announced while it is
/// lent, and the owner's line, read from the same title after the loan.
pub fn title_report(book_title: String) -> (lines: Vec<String>)
    ensures
        texts_of(lines@) == seq![borrowed_line(book_title@), kept_line(book_title@)],
{
    let mut lines: Vec<String> = Vec::new();
    lines.push(borrow_title(&book_title));
    lines.push(keep_title(&book_title));
    lines
}

} // verus!
