//! A set of unique texts.
//!
//! A [`TextSet`] holds each text at most once. Its view is the mathematical
//! set of its members. It also keeps its members in a fixed order, the
//! order in which they came in, which is the order in which it lists them.

use vstd::prelude::*;
use crate::text::{same_text, texts_of};

verus! {

/// `texts` with every text kept where it first occurs and left out wherever
/// it occurs again.
pub open spec fn without_repeats(texts: Seq<Seq<char>>) -> Seq<Seq<char>>
    decreases texts.len(),
{
    if texts.len() == 0 {
        Seq::empty()
    } else {
        let before = without_repeats(texts.drop_last());
        if before.contains(texts.last()) {
            before
        } else {
            before.push(texts.last())
        }
    }
}

/// Leaving repeats out lets no text occur twice and changes nothing in which
/// texts occur.
pub proof fn lemma_without_repeats(texts: Seq<Seq<char>>)
    ensures
        without_repeats(texts).no_duplicates(),
        without_repeats(texts).to_set() == texts.to_set(),
    decreases texts.len(),
{
    if texts.len() > 0 {
        let earlier = texts.drop_last();
        let before = without_repeats(earlier);
        let after = without_repeats(texts);
        lemma_without_repeats(earlier);
        assert forall|t: Seq<char>| after.contains(t) <==> texts.contains(t) by {
            if texts.contains(t) {
                let i = choose|i: int| 0 <= i < texts.len() && texts[i] == t;
                if i < earlier.len() {
                    assert(earlier[i] == t);
                    assert(before.to_set().contains(t));
                    let j = choose|j: int| 0 <= j < before.len() && before[j] == t;
                    assert(after[j] == t);
                } else if !before.contains(t) {
                    assert(after[before.len() as int] == t);
                }
            }
            if after.contains(t) {
                let j = choose|j: int| 0 <= j < after.len() && after[j] == t;
                if j < before.len() {
                    assert(before.to_set().contains(t));
                    let i = choose|i: int| 0 <= i < earlier.len() && earlier[i] == t;
                    assert(texts[i] == t);
                } else {
                    assert(texts.last() == t);
                }
            }
        }
    }
    assert(without_repeats(texts).to_set() =~= texts.to_set());
}

/// A set of unique texts that lists its members in the order in which they
/// came in.
pub struct TextSet {
    items: Vec<String>,
}

impl View for TextSet {
    type V = Set<Seq<char>>;

    /// The members, as a mathematical set.
    open spec fn view(&self) -> Set<Seq<char>> {
        self.listing().to_set()
    }
}

impl TextSet {
    /// The members in the order in which the set lists them.
    pub closed spec fn listing(&self) -> Seq<Seq<char>> {
        texts_of(self.items@)
    }

    /// No text is a member twice.
    #[verifier::type_invariant]
    pub open spec fn has_unique_members(&self) -> bool {
        self.listing().no_duplicates()
    }

    /// The set without members.
    pub fn new() -> (set: TextSet)
        ensures
            set@ == Set::<Seq<char>>::empty(),
            set.listing() == Seq::<Seq<char>>::empty(),
    {
        TextSet { items: Vec::new() }
    }

    /// Where `text` stands in the listing, if it is a member.
    fn position(&self, text: &str) -> (at: Option<usize>)
        ensures
            match at {
                Some(i) => i < self.listing().len() && self.listing()[i as int] == text@,
                None => !self.listing().contains(text@),
            },
    {
        for i in 0..self.items.len()
            invariant
                forall|j: int| 0 <= j < i ==> self.listing()[j] != text@,
        {
            if same_text(self.items[i].as_str(), text) {
                return Some(i);
            }
        }
        None
    }

    /// Whether `text` is a member.
    pub fn contains(&self, text: &str) -> (found: bool)
        ensures
            found == self@.contains(text@),
    {
        self.position(text).is_some()
    }

    /// How many members the set has.
    pub fn len(&self) -> (count: usize)
        ensures
            count == self@.len(),
            count == self.listing().len(),
    {
        proof {
            use_type_invariant(self);
            self.listing().unique_seq_to_set();
        }
        self.items.len()
    }

    /// Whether the set has no member.
    pub fn is_empty(&self) -> (empty: bool)
        ensures
            empty == (self@ == Set::<Seq<char>>::empty()),
            empty == (self@.len() == 0),
    {
        proof {
            use_type_invariant(self);
            self.listing().unique_seq_to_set();
            if self.listing().len() == 0 {
                assert(self@ =~= Set::<Seq<char>>::empty());
            } else {
                assert(self@.contains(self.listing()[0]));
            }
        }
        self.items.len() == 0
    }

    /// Makes `member` a member. A text that is a member already stays where
    /// it is, and the set is left as it was; a new one is listed last.
    /// Tells whether the text was new.
    pub fn insert(&mut self, member: String) -> (added: bool)
        ensures
            added == !old(self)@.contains(member@),
            final(self)@ == old(self)@.insert(member@),
            final(self).listing() == if added {
                old(self).listing().push(member@)
            } else {
                old(self).listing()
            },
    {
        let ghost before = self.listing();
        if self.position(member.as_str()).is_some() {
            assert(self@ =~= self@.insert(member@));
            false
        } else {
            proof {
                use_type_invariant(&*self);
                before.lemma_push_to_set_commute(member@);
                assert(texts_of(self.items@.push(member)) =~= before.push(member@));
            }
            // The members leave the set for the change and come back after it,
            // so the set is whole whenever it can be seen.
            let mut items: Vec<String> = Vec::new();
            core::mem::swap(&mut self.items, &mut items);
            items.push(member);
            core::mem::swap(&mut self.items, &mut items);
            true
        }
    }

    /// Takes `text` out of the set, if it is a member; the other members keep
    /// their order. Tells whether the text was a member.
    pub fn remove(&mut self, text: &str) -> (removed: bool)
        ensures
            removed == old(self)@.contains(text@),
            final(self)@ == old(self)@.remove(text@),
            final(self).listing() == old(self).listing().remove_value(text@),
    {
        let ghost before = self.listing();
        proof {
            before.index_of_first_ensures(text@);
        }
        match self.position(text) {
            Some(at) => {
                proof {
                    use_type_invariant(&*self);
                    lemma_remove_member(before, at as int);
                    assert(texts_of(self.items@.remove(at as int)) =~= before.remove(at as int));
                }
                let mut items: Vec<String> = Vec::new();
                core::mem::swap(&mut self.items, &mut items);
                let _ = items.remove(at);
                core::mem::swap(&mut self.items, &mut items);
                true
            },
            None => {
                assert(self@ =~= self@.remove(text@));
                false
            },
        }
    }

    /// The set of the texts of `items`. Its listing follows `items`, and a
    /// text that occurs more than once is listed where it occurs first.
    pub fn from_items(items: Vec<String>) -> (set: TextSet)
        ensures
            set@ == texts_of(items@).to_set(),
            set.listing() == without_repeats(texts_of(items@)),
    {
        let mut set = TextSet::new();
        let ghost all = texts_of(items@);
        for i in 0..items.len()
            invariant
                all == texts_of(items@),
                set.listing() == without_repeats(all.take(i as int)),
        {
            proof {
                assert(all.take(i + 1).drop_last() =~= all.take(i as int));
            }
            set.insert(items[i].clone());
        }
        proof {
            assert(all.take(items@.len() as int) =~= all);
            lemma_without_repeats(all);
        }
        set
    }

    /// The members as strings, in the order of the listing.
    pub fn members(&self) -> (items: &Vec<String>)
        ensures
            texts_of(items@) == self.listing(),
    {
        &self.items
    }
}

/// Taking the text at `at` out of a listing without repeats leaves a listing
/// without repeats, of the same texts but that one.
proof fn lemma_remove_member(listing: Seq<Seq<char>>, at: int)
    requires
        listing.no_duplicates(),
        0 <= at < listing.len(),
    ensures
        listing.remove(at).no_duplicates(),
        listing.remove(at).to_set() == listing.to_set().remove(listing[at]),
{
    let shorter = listing.remove(at);
    assert forall|i: int, j: int|
        0 <= i < shorter.len() && 0 <= j < shorter.len() && i != j implies shorter[i]
        != shorter[j] by {
        assert(shorter[i] == listing[if i < at { i } else { i + 1 }]);
        assert(shorter[j] == listing[if j < at { j } else { j + 1 }]);
    }
    assert forall|t: Seq<char>| shorter.contains(t) <==> (listing.contains(t) && t
        != listing[at]) by {
        if shorter.contains(t) {
            let i = choose|i: int| 0 <= i < shorter.len() && shorter[i] == t;
            assert(listing[if i < at { i } else { i + 1 }] == t);
        }
        if listing.contains(t) && t != listing[at] {
            let i = choose|i: int| 0 <= i < listing.len() && listing[i] == t;
            assert(shorter[if i < at { i } else { i - 1 }] == t);
        }
    }
    assert(shorter.to_set() =~= listing.to_set().remove(listing[at]));
}

/// What holds of membership whatever the set and the text: a text that
/// has just been inserted is a member; a text that has just been removed is
/// not; and inserting a text that is a member already leaves the set, and
/// so its size, as it was.
pub proof fn lemma_membership(members: Set<Seq<char>>, text: Seq<char>)
    ensures
        members.insert(text).contains(text),
        !members.remove(text).contains(text),
        members.contains(text) ==> members.insert(text) == members,
        members.contains(text) ==> members.insert(text).len() == members.len(),
{
    if members.contains(text) {
        assert(members.insert(text) =~= members);
    }
}

} // verus!
