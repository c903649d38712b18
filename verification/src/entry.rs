//! Directory entries and the rules on a listing: the directory-first order,
//! looking an entry up by name, and the width of the longest name.

use vstd::prelude::*;
use vstd::string::*;
use crate::constants::FILE_ATTRIBUTE_HIDDEN;

verus! {

/// One child of a directory.
#[derive(Debug, PartialEq, Eq)]
pub struct Entry {
    pub name: String,
    pub is_dir: bool,
    pub is_hidden: bool,
}

/// What an [`Entry`] stands for: its name as a sequence of characters and its
/// two flags.
pub struct EntryView {
    pub name: Seq<char>,
    pub is_dir: bool,
    pub is_hidden: bool,
}

impl View for Entry {
    type V = EntryView;

    open spec fn view(&self) -> EntryView {
        EntryView { name: self.name@, is_dir: self.is_dir, is_hidden: self.is_hidden }
    }
}

impl Clone for Entry {
    fn clone(&self) -> (copy: Self)
        ensures
            copy == *self,
    {
        Entry { name: self.name.clone(), is_dir: self.is_dir, is_hidden: self.is_hidden }
    }
}

/// The platform's file attributes mark the file as hidden.
pub open spec fn hidden_by_attributes(attributes: u32) -> bool {
    attributes & FILE_ATTRIBUTE_HIDDEN != 0
}

/// The name marks the file as hidden: it begins with a dot.
pub open spec fn hidden_by_name(name: Seq<char>) -> bool {
    name.len() > 0 && name[0] == '.'
}

impl Entry {
    /// Makes the entry of a child on a platform that keeps a hidden bit in
    /// its file attributes.
    pub fn from_attributes(name: String, is_dir: bool, attributes: u32) -> (entry: Self)
        ensures
            entry@ == (EntryView { name: name@, is_dir: is_dir, is_hidden: hidden_by_attributes(attributes) }),
    {
        Entry { name: name, is_dir: is_dir, is_hidden: (attributes & FILE_ATTRIBUTE_HIDDEN) != 0 }
    }

    /// Makes the entry of a child on a platform without such a bit: a name
    /// that begins with a dot is hidden.
    pub fn from_name(name: String, is_dir: bool) -> (entry: Self)
        ensures
            entry@ == (EntryView { name: name@, is_dir: is_dir, is_hidden: hidden_by_name(name@) }),
    {
        let hidden = name.as_str().unicode_len() > 0 && name.as_str().get_char(0) == '.';
        Entry { name: name, is_dir: is_dir, is_hidden: hidden }
    }
}

/// The listing that a sequence of entries stands for.
pub open spec fn listing_view(entries: Seq<Entry>) -> Seq<EntryView> {
    entries.map_values(|e: Entry| e@)
}

/// The directories of a listing, in the order of the listing.
pub open spec fn dirs_of(listing: Seq<EntryView>) -> Seq<EntryView> {
    listing.filter(|e: EntryView| e.is_dir)
}

/// The plain files of a listing, in the order of the listing.
pub open spec fn files_of(listing: Seq<EntryView>) -> Seq<EntryView> {
    listing.filter(|e: EntryView| !e.is_dir)
}

/// The listing with its directories moved before its files; inside either
/// group the entries keep the order in which they were enumerated.
pub open spec fn dirs_first(listing: Seq<EntryView>) -> Seq<EntryView> {
    dirs_of(listing) + files_of(listing)
}

/// No file of the listing stands before a directory.
pub open spec fn is_dirs_first(listing: Seq<EntryView>) -> bool {
    forall|i: int, j: int|
        0 <= i < j < listing.len() && !(#[trigger] listing[i]).is_dir ==> !(#[trigger] listing[j]).is_dir
}

/// Some entry of the listing carries `name`.
pub open spec fn has_name(listing: Seq<EntryView>, name: Seq<char>) -> bool {
    exists|i: int| 0 <= i < listing.len() && (#[trigger] listing[i]).name == name
}

/// `index` is the first entry of the listing that carries `name`.
pub open spec fn is_first_named(listing: Seq<EntryView>, name: Seq<char>, index: int) -> bool {
    &&& 0 <= index < listing.len()
    &&& listing[index].name == name
    &&& forall|j: int| 0 <= j < index ==> (#[trigger] listing[j]).name != name
}

/// The index of the first entry that carries `name`; meaningful only where
/// [`has_name`] holds.
pub open spec fn first_named(listing: Seq<EntryView>, name: Seq<char>) -> int {
    choose|i: int| is_first_named(listing, name, i)
}

/// The row that a selection lands on when it follows `name`: the first entry
/// of that name, and the top row when the listing holds no such entry.
pub open spec fn synced_index(listing: Seq<EntryView>, name: Seq<char>) -> int {
    if has_name(listing, name) {
        first_named(listing, name)
    } else {
        0
    }
}

/// The length, in characters, of the longest name in the listing; zero for an
/// empty listing.
pub open spec fn longest_name(listing: Seq<EntryView>) -> nat
    decreases listing.len(),
{
    if listing.len() == 0 {
        0
    } else {
        let rest = longest_name(listing.drop_last());
        if listing.last().name.len() > rest {
            listing.last().name.len()
        } else {
            rest
        }
    }
}

/// The first entry of a given name is unique, so whoever finds one has found
/// the value of [`first_named`].
pub proof fn lemma_first_named_unique(listing: Seq<EntryView>, name: Seq<char>, index: int)
    requires
        is_first_named(listing, name, index),
    ensures
        has_name(listing, name),
        first_named(listing, name) == index,
        synced_index(listing, name) == index,
{
    let chosen = first_named(listing, name);
    assert(is_first_named(listing, name, chosen));
    if chosen < index {
        assert(listing[chosen].name != name);
    } else if index < chosen {
        assert(listing[index].name != name);
    }
}

/// A name that occurs in a listing has a first occurrence.
pub proof fn lemma_has_name_first(listing: Seq<EntryView>, name: Seq<char>)
    requires
        has_name(listing, name),
    ensures
        is_first_named(listing, name, first_named(listing, name)),
        0 <= synced_index(listing, name) < listing.len(),
        listing[synced_index(listing, name)].name == name,
{
    let some = choose|i: int| 0 <= i < listing.len() && (#[trigger] listing[i]).name == name;
    lemma_first_at_or_before(listing, name, some);
}

/// Below any occurrence of a name there is a first one.
proof fn lemma_first_at_or_before(listing: Seq<EntryView>, name: Seq<char>, index: int)
    requires
        0 <= index < listing.len(),
        listing[index].name == name,
    ensures
        exists|i: int| is_first_named(listing, name, i),
    decreases index,
{
    if exists|j: int| 0 <= j < index && (#[trigger] listing[j]).name == name {
        let j = choose|j: int| 0 <= j < index && (#[trigger] listing[j]).name == name;
        lemma_first_at_or_before(listing, name, j);
    } else {
        assert(is_first_named(listing, name, index));
    }
}

/// The row a selection lands on is always a row of the listing, or the top
/// row of an empty one.
pub proof fn lemma_synced_index_in_range(listing: Seq<EntryView>, name: Seq<char>)
    ensures
        0 <= synced_index(listing, name),
        listing.len() > 0 ==> synced_index(listing, name) < listing.len(),
        listing.len() == 0 ==> synced_index(listing, name) == 0,
{
    if has_name(listing, name) {
        lemma_has_name_first(listing, name);
    }
}

/// Every name of the listing fits in [`longest_name`], and a listing that is
/// not empty holds a name of exactly that length.
pub proof fn lemma_longest_name(listing: Seq<EntryView>)
    ensures
        forall|i: int| 0 <= i < listing.len() ==> (#[trigger] listing[i]).name.len() <= longest_name(listing),
        listing.len() > 0 ==> exists|i: int|
            0 <= i < listing.len() && (#[trigger] listing[i]).name.len() == longest_name(listing),
    decreases listing.len(),
{
    if listing.len() > 0 {
        let rest = listing.drop_last();
        lemma_longest_name(rest);
        assert forall|i: int| 0 <= i < listing.len() implies (#[trigger] listing[i]).name.len()
            <= longest_name(listing) by {
            if i < rest.len() {
                assert(rest[i] == listing[i]);
            }
        }
        if listing.last().name.len() > longest_name(rest) || rest.len() == 0 {
            assert(listing[listing.len() - 1].name.len() == longest_name(listing));
        } else {
            let i = choose|i: int| 0 <= i < rest.len() && (#[trigger] rest[i]).name.len() == longest_name(rest);
            assert(listing[i] == rest[i]);
        }
    }
}

/// In the directory-first order no file stands before a directory, the
/// listing keeps its length, and it keeps every entry it had.
pub proof fn lemma_dirs_first(listing: Seq<EntryView>)
    ensures
        is_dirs_first(dirs_first(listing)),
        dirs_first(listing).len() == listing.len(),
        dirs_first(listing).to_multiset() == listing.to_multiset(),
{
    let dirs = dirs_of(listing);
    let files = files_of(listing);
    let both = dirs_first(listing);
    assert forall|i: int, j: int|
        0 <= i < j < both.len() && !(#[trigger] both[i]).is_dir implies !(#[trigger] both[j]).is_dir by {
        if j < dirs.len() {
            listing.lemma_filter_pred(|e: EntryView| e.is_dir, i);
        } else {
            listing.lemma_filter_pred(|e: EntryView| !e.is_dir, j - dirs.len());
        }
    }
    lemma_dirs_first_multiset(listing);
    both.to_multiset_ensures();
    listing.to_multiset_ensures();
}

proof fn lemma_dirs_first_multiset(listing: Seq<EntryView>)
    ensures
        dirs_first(listing).to_multiset() == listing.to_multiset(),
    decreases listing.len(),
{
    broadcast use vstd::seq_lib::group_to_multiset_ensures;

    if listing.len() == 0 {
        reveal(Seq::filter);
        assert(dirs_first(listing) =~= listing);
    } else {
        let rest = listing.drop_last();
        let last = listing.last();
        lemma_dirs_first_multiset(rest);
        assert(listing =~= rest.push(last));
        rest.lemma_filter_push(last, |e: EntryView| e.is_dir);
        rest.lemma_filter_push(last, |e: EntryView| !e.is_dir);
        vstd::seq_lib::lemma_multiset_commutative(dirs_of(rest), files_of(rest));
        vstd::seq_lib::lemma_multiset_commutative(dirs_of(listing), files_of(listing));
        if last.is_dir {
            assert(dirs_of(listing) =~= dirs_of(rest).push(last));
            assert(files_of(listing) =~= files_of(rest));
        } else {
            assert(dirs_of(listing) =~= dirs_of(rest));
            assert(files_of(listing) =~= files_of(rest).push(last));
        }
        assert(dirs_first(listing).to_multiset() =~= dirs_first(rest).to_multiset().insert(last));
        assert(listing.to_multiset() =~= rest.to_multiset().insert(last));
    }
}

/// Putting a listing in directory-first order changes neither which names it
/// holds nor the length of its longest name.
pub proof fn lemma_dirs_first_keeps_names(listing: Seq<EntryView>)
    ensures
        longest_name(dirs_first(listing)) == longest_name(listing),
        forall|name: Seq<char>| has_name(dirs_first(listing), name) == has_name(listing, name),
{
    broadcast use vstd::seq_lib::group_to_multiset_ensures;

    let ordered = dirs_first(listing);
    lemma_dirs_first(listing);
    lemma_longest_name(listing);
    lemma_longest_name(ordered);
    assert forall|e: EntryView| ordered.contains(e) == listing.contains(e) by {
        assert(ordered.to_multiset().count(e) == listing.to_multiset().count(e));
    }
    if listing.len() > 0 {
        let i = choose|i: int|
            0 <= i < listing.len() && (#[trigger] listing[i]).name.len() == longest_name(listing);
        assert(listing.contains(listing[i]));
        let j = choose|j: int|
            0 <= j < ordered.len() && (#[trigger] ordered[j]).name.len() == longest_name(ordered);
        assert(ordered.contains(ordered[j]));
    }
    assert forall|name: Seq<char>| has_name(ordered, name) == has_name(listing, name) by {
        if has_name(ordered, name) {
            let i = choose|i: int| 0 <= i < ordered.len() && (#[trigger] ordered[i]).name == name;
            assert(ordered.contains(ordered[i]));
            let k = choose|k: int| 0 <= k < listing.len() && listing[k] == ordered[i];
            assert(listing[k].name == name);
        }
        if has_name(listing, name) {
            let i = choose|i: int| 0 <= i < listing.len() && (#[trigger] listing[i]).name == name;
            assert(listing.contains(listing[i]));
            let k = choose|k: int| 0 <= k < ordered.len() && ordered[k] == listing[i];
            assert(ordered[k].name == name);
        }
    }
}

/// A filter that every element passes keeps the sequence as it is.
proof fn lemma_filter_keeps_all(listing: Seq<EntryView>, pred: spec_fn(EntryView) -> bool)
    requires
        forall|i: int| 0 <= i < listing.len() ==> pred(#[trigger] listing[i]),
    ensures
        listing.filter(pred) == listing,
    decreases listing.len(),
{
    reveal(Seq::filter);
    if listing.len() > 0 {
        let rest = listing.drop_last();
        assert forall|i: int| 0 <= i < rest.len() implies pred(#[trigger] rest[i]) by {
            assert(rest[i] == listing[i]);
        }
        lemma_filter_keeps_all(rest, pred);
        assert(pred(listing[listing.len() - 1]));
        assert(rest.push(listing.last()) =~= listing);
    }
}

/// A filter that no element passes leaves nothing.
proof fn lemma_filter_drops_all(listing: Seq<EntryView>, pred: spec_fn(EntryView) -> bool)
    requires
        forall|i: int| 0 <= i < listing.len() ==> !pred(#[trigger] listing[i]),
    ensures
        listing.filter(pred) == Seq::<EntryView>::empty(),
    decreases listing.len(),
{
    reveal(Seq::filter);
    if listing.len() > 0 {
        let rest = listing.drop_last();
        assert forall|i: int| 0 <= i < rest.len() implies !pred(#[trigger] rest[i]) by {
            assert(rest[i] == listing[i]);
        }
        lemma_filter_drops_all(rest, pred);
        assert(!pred(listing[listing.len() - 1]));
    } else {
        assert(listing =~= Seq::<EntryView>::empty());
    }
}

/// Without its last entry a directory-first listing is still directory-first.
proof fn lemma_dirs_first_drop_last(listing: Seq<EntryView>)
    requires
        is_dirs_first(listing),
        listing.len() > 0,
    ensures
        is_dirs_first(listing.drop_last()),
{
    let rest = listing.drop_last();
    assert forall|i: int, j: int|
        0 <= i < j < rest.len() && !(#[trigger] rest[i]).is_dir implies !(#[trigger] rest[j]).is_dir by {
        assert(rest[i] == listing[i]);
        assert(rest[j] == listing[j]);
    }
}

/// A directory-first listing that ends in a directory holds directories only.
proof fn lemma_dirs_first_ends_in_dir(listing: Seq<EntryView>)
    requires
        is_dirs_first(listing),
        listing.len() > 0,
        listing.last().is_dir,
    ensures
        forall|i: int| 0 <= i < listing.len() ==> (#[trigger] listing[i]).is_dir,
{
    let last_index = listing.len() - 1;
    assert forall|i: int| 0 <= i < listing.len() implies (#[trigger] listing[i]).is_dir by {
        if i < last_index && !listing[i].is_dir {
            assert(!listing[last_index].is_dir);
        }
    }
}

/// A listing of directories only is in directory-first order as it stands.
proof fn lemma_dirs_first_of_dirs(listing: Seq<EntryView>)
    requires
        forall|i: int| 0 <= i < listing.len() ==> (#[trigger] listing[i]).is_dir,
    ensures
        dirs_first(listing) == listing,
{
    lemma_filter_keeps_all(listing, |e: EntryView| e.is_dir);
    lemma_filter_drops_all(listing, |e: EntryView| !e.is_dir);
    assert(listing + Seq::<EntryView>::empty() =~= listing);
}

/// A file added at the end of a listing stays at the end of its
/// directory-first order.
proof fn lemma_dirs_first_push_file(rest: Seq<EntryView>, last: EntryView)
    requires
        !last.is_dir,
    ensures
        dirs_first(rest.push(last)) == dirs_first(rest).push(last),
{
    rest.lemma_filter_push(last, |e: EntryView| e.is_dir);
    rest.lemma_filter_push(last, |e: EntryView| !e.is_dir);
    assert(dirs_of(rest) + files_of(rest).push(last) =~= (dirs_of(rest) + files_of(rest)).push(last));
}

/// A listing is what is left without its last entry, and that entry.
proof fn lemma_drop_last_push(listing: Seq<EntryView>)
    requires
        listing.len() > 0,
    ensures
        listing.drop_last().push(listing.last()) == listing,
{
    assert(listing.drop_last().push(listing.last()) =~= listing);
}

/// A listing that already has its directories first is left as it is.
pub proof fn lemma_dirs_first_idempotent(listing: Seq<EntryView>)
    requires
        is_dirs_first(listing),
    ensures
        dirs_first(listing) == listing,
    decreases listing.len(),
{
    if listing.len() == 0 {
        lemma_dirs_first_of_dirs(listing);
    } else if listing.last().is_dir {
        lemma_dirs_first_ends_in_dir(listing);
        lemma_dirs_first_of_dirs(listing);
    } else {
        lemma_dirs_first_drop_last(listing);
        lemma_dirs_first_idempotent(listing.drop_last());
        lemma_dirs_first_push_file(listing.drop_last(), listing.last());
        lemma_drop_last_push(listing);
    }
}

/// The listing of a vector grows by one view when the vector grows by one
/// entry.
proof fn lemma_listing_view_push(entries: Seq<Entry>, entry: Entry)
    ensures
        listing_view(entries.push(entry)) == listing_view(entries).push(entry@),
{
    assert(listing_view(entries.push(entry)) =~= listing_view(entries).push(entry@));
}

/// Copies the listing into the directory-first order: every directory, then
/// every file, each group in the order of enumeration.
pub fn partition_dirs_first(listing: &Vec<Entry>) -> (ordered: Vec<Entry>)
    ensures
        listing_view(ordered@) == dirs_first(listing_view(listing@)),
        ordered@.len() == listing@.len(),
        is_dirs_first(listing_view(ordered@)),
{
    let ghost whole = listing_view(listing@);
    let mut ordered: Vec<Entry> = Vec::new();
    let mut at: usize = 0;
    assert(whole.take(0) =~= Seq::<EntryView>::empty());
    assert(dirs_of(Seq::<EntryView>::empty()) =~= Seq::<EntryView>::empty()) by {
        reveal(Seq::filter);
    }
    assert(listing_view(ordered@) =~= dirs_of(whole.take(0)));
    while at < listing.len()
        invariant
            at <= listing.len(),
            whole == listing_view(listing@),
            listing_view(ordered@) == dirs_of(whole.take(at as int)),
        decreases listing.len() - at,
    {
        proof {
            assert(whole.take(at + 1) =~= whole.take(at as int).push(listing@[at as int]@));
            whole.take(at as int).lemma_filter_push(listing@[at as int]@, |e: EntryView| e.is_dir);
        }
        if listing[at].is_dir {
            let copy = listing[at].clone();
            proof {
                lemma_listing_view_push(ordered@, copy);
            }
            ordered.push(copy);
        }
        at += 1;
    }
    assert(whole.take(at as int) =~= whole);
    at = 0;
    assert(whole.take(0) =~= Seq::<EntryView>::empty());
    assert(files_of(Seq::<EntryView>::empty()) =~= Seq::<EntryView>::empty()) by {
        reveal(Seq::filter);
    }
    assert(listing_view(ordered@) =~= dirs_of(whole) + files_of(whole.take(0)));
    while at < listing.len()
        invariant
            at <= listing.len(),
            whole == listing_view(listing@),
            listing_view(ordered@) == dirs_of(whole) + files_of(whole.take(at as int)),
        decreases listing.len() - at,
    {
        proof {
            assert(whole.take(at + 1) =~= whole.take(at as int).push(listing@[at as int]@));
            whole.take(at as int).lemma_filter_push(listing@[at as int]@, |e: EntryView| !e.is_dir);
        }
        if !listing[at].is_dir {
            let copy = listing[at].clone();
            proof {
                lemma_listing_view_push(ordered@, copy);
                assert((dirs_of(whole) + files_of(whole.take(at as int))).push(copy@) =~= dirs_of(whole)
                    + files_of(whole.take(at as int)).push(copy@));
            }
            ordered.push(copy);
        }
        at += 1;
    }
    proof {
        assert(whole.take(at as int) =~= whole);
        lemma_dirs_first(whole);
    }
    ordered
}

/// Looks for the first entry that carries `name`.
pub fn find_entry(listing: &Vec<Entry>, name: &String) -> (found: Option<usize>)
    ensures
        match found {
            Some(index) => is_first_named(listing_view(listing@), name@, index as int),
            None => !has_name(listing_view(listing@), name@),
        },
{
    let mut at: usize = 0;
    while at < listing.len()
        invariant
            at <= listing.len(),
            forall|j: int| 0 <= j < at ==> (#[trigger] listing_view(listing@)[j]).name != name@,
        decreases listing.len() - at,
    {
        if listing[at].name == *name {
            return Some(at);
        }
        at += 1;
    }
    None
}

/// The row on which a selection that follows `name` lands: the first entry of
/// that name, or the top row when no entry carries it.
pub fn sync_index(listing: &Vec<Entry>, name: &String) -> (index: usize)
    ensures
        index == synced_index(listing_view(listing@), name@),
        listing@.len() > 0 ==> index < listing@.len(),
        listing@.len() == 0 ==> index == 0,
{
    match find_entry(listing, name) {
        Some(index) => {
            proof {
                lemma_first_named_unique(listing_view(listing@), name@, index as int);
            }
            index
        },
        None => 0,
    }
}

/// Measures the longest name of the listing, in characters.
pub fn longest_name_len(listing: &Vec<Entry>) -> (longest: usize)
    ensures
        longest == longest_name(listing_view(listing@)),
{
    let ghost whole = listing_view(listing@);
    let mut longest: usize = 0;
    let mut at: usize = 0;
    assert(whole.take(0) =~= Seq::<EntryView>::empty());
    while at < listing.len()
        invariant
            at <= listing.len(),
            whole == listing_view(listing@),
            longest == longest_name(whole.take(at as int)),
        decreases listing.len() - at,
    {
        proof {
            assert(whole.take(at + 1).drop_last() =~= whole.take(at as int));
            assert(whole.take(at + 1).last() == listing@[at as int]@);
        }
        let here = listing[at].name.as_str().unicode_len();
        if here > longest {
            longest = here;
        }
        at += 1;
    }
    assert(whole.take(at as int) =~= whole);
    longest
}

} // verus!
