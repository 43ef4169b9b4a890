//! Putting texts together: comparing two texts, joining a run of them, and
//! laying a run out as a listing between brackets or braces.

use vstd::prelude::*;
use vstd::std_specs::iter::IteratorSpec;
use vstd::string::StringExecFns;

verus! {

/// The texts that a run of strings holds, in the same order.
pub open spec fn texts_of(items: Seq<String>) -> Seq<Seq<char>> {
    Seq::new(items.len(), |i: int| items[i]@)
}

/// The texts of `items` written one after another, with `separator` between
/// each two neighbours and nothing before the first or after the last.
pub open spec fn joined(items: Seq<Seq<char>>, separator: Seq<char>) -> Seq<char>
    decreases items.len(),
{
    if items.len() == 0 {
        Seq::empty()
    } else if items.len() == 1 {
        items[0]
    } else {
        joined(items.drop_last(), separator) + separator + items.last()
    }
}

/// A listing: `opening`, then the items with a comma and a blank between
/// each two neighbours, then `closing`.
pub open spec fn listed(opening: Seq<char>, items: Seq<Seq<char>>, closing: Seq<char>) -> Seq<
    char,
> {
    opening + joined(items, seq![',', ' ']) + closing
}

/// What the debug form of a text is: the text between double quotes, with
/// the characters that could not be read back as they stand written as escape
/// sequences.
pub uninterp spec fn quoted_text(text: Seq<char>) -> Seq<char>;

/// Each text of `texts` in its debug form, in the same order.
pub open spec fn quoted_all(texts: Seq<Seq<char>>) -> Seq<Seq<char>> {
    Seq::new(texts.len(), |i: int| quoted_text(texts[i]))
}

/// The debug form of `text`, as `<str as core::fmt::Debug>::fmt` writes it.
///
/// Nothing is proved of the call. The contract only gives the result its
/// name: the same text always has the same debug form.
#[verifier::external_body]
pub(crate) fn quote(text: &str) -> (quoted: String)
    ensures
        quoted@ == quoted_text(text@),
{
    format!("{:?}", text)
}

/// Whether `a` and `b` are the same text, character for character.
pub fn same_text(a: &str, b: &str) -> (same: bool)
    ensures
        same == (a@ == b@),
{
    let mut rest_a = a.chars();
    let mut rest_b = b.chars();
    let ghost mut done: int = 0;
    loop
        invariant
            0 <= done <= a@.len(),
            done <= b@.len(),
            rest_a.remaining() == a@.skip(done),
            rest_b.remaining() == b@.skip(done),
            a@.take(done) == b@.take(done),
        decreases a@.len() - done,
    {
        match (rest_a.next(), rest_b.next()) {
            (None, None) => {
                assert(a@ =~= a@.take(done));
                assert(b@ =~= b@.take(done));
                return true;
            },
            (Some(in_a), Some(in_b)) => {
                if in_a != in_b {
                    return false;
                }
                proof {
                    done = done + 1;
                }
            },
            _ => {
                return false;
            },
        }
    }
}

/// Writes the texts of `items` one after another, with `separator` between
/// each two neighbours.
pub fn join(items: &Vec<String>, separator: &str) -> (text: String)
    ensures
        text@ == joined(texts_of(items@), separator@),
{
    let mut text = String::new();
    let ghost all = texts_of(items@);
    for i in 0..items.len()
        invariant
            all == texts_of(items@),
            text@ == joined(all.take(i as int), separator@),
    {
        if i > 0 {
            text.append(separator);
        }
        text.append(items[i].as_str());
        proof {
            assert(all.take(i + 1).drop_last() =~= all.take(i as int));
        }
    }
    assert(all.take(items@.len() as int) =~= all);
    text
}

/// Lays `items` out as a listing: `opening`, the items with `", "` between
/// each two neighbours, `closing`.
pub fn list(opening: &str, items: &Vec<String>, closing: &str) -> (text: String)
    ensures
        text@ == listed(opening@, texts_of(items@), closing@),
{
    proof {
        reveal_strlit(", ");
        assert(", "@ =~= seq![',', ' ']);
    }
    let mut text = String::from_str(opening);
    text.append(join(items, ", ").as_str());
    text.append(closing);
    text
}

/// Each text of `items` in its debug form, in the same order.
pub fn quote_all(items: &Vec<String>) -> (quoted: Vec<String>)
    ensures
        texts_of(quoted@) == quoted_all(texts_of(items@)),
{
    let mut quoted: Vec<String> = Vec::new();
    for i in 0..items.len()
        invariant
            quoted@.len() == i,
            forall|j: int| 0 <= j < i ==> (#[trigger] quoted@[j])@ == quoted_text(items@[j]@),
    {
        quoted.push(quote(items[i].as_str()));
    }
    quoted
}

} // verus!
