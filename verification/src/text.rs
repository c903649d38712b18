//! Fixed-width text: cutting a name down to a column, filling a column with
//! spaces, and joining names into a path.

use vstd::prelude::*;
use vstd::string::*;

verus! {

/// A run of `count` spaces.
pub open spec fn spaces(count: nat) -> Seq<char> {
    Seq::new(count, |i: int| ' ')
}

/// The text cut down to its first `max_width` characters where it is longer.
pub open spec fn shortened(text: Seq<char>, max_width: nat) -> Seq<char> {
    if text.len() > max_width {
        text.take(max_width as int)
    } else {
        text
    }
}

/// The text filled up with spaces on the right to `width` characters; a text
/// that is already that wide or wider is left as it is.
pub open spec fn padded(text: Seq<char>, width: nat) -> Seq<char> {
    if text.len() >= width {
        text
    } else {
        text + spaces((width - text.len()) as nat)
    }
}

/// The parts written one after another with `separator` between neighbours.
pub open spec fn joined(parts: Seq<Seq<char>>, separator: Seq<char>) -> Seq<char>
    decreases parts.len(),
{
    if parts.len() == 0 {
        Seq::empty()
    } else if parts.len() == 1 {
        parts[0]
    } else {
        joined(parts.drop_last(), separator) + separator + parts.last()
    }
}

/// The texts that a vector of strings stands for.
pub open spec fn texts_of(parts: Seq<String>) -> Seq<Seq<char>> {
    parts.map_values(|s: String| s@)
}

/// The number of characters in `text`.
pub fn char_len(text: &str) -> (count: usize)
    ensures
        count == text@.len(),
{
    text.unicode_len()
}

/// Builds a run of `count` spaces.
pub fn blank(count: usize) -> (run: String)
    ensures
        run@ == spaces(count as nat),
{
    let mut run = String::new();
    let mut done: usize = 0;
    while done < count
        invariant
            done <= count,
            run@ == spaces(done as nat),
        decreases count - done,
    {
        proof {
            reveal_strlit(" ");
        }
        run.append(" ");
        done += 1;
        assert(run@ =~= spaces(done as nat));
    }
    run
}

/// Cuts `text` down to `max_width` characters where it is longer.
pub fn shorten(text: &str, max_width: usize) -> (cut: String)
    ensures
        cut@ == shortened(text@, max_width as nat),
{
    if text.unicode_len() > max_width {
        String::from_str(text.substring_char(0, max_width))
    } else {
        String::from_str(text)
    }
}

/// Fills `text` up with spaces on the right to `width` characters.
pub fn pad_to(text: String, width: usize) -> (filled: String)
    ensures
        filled@ == padded(text@, width as nat),
{
    let have = text.as_str().unicode_len();
    if have >= width {
        text
    } else {
        let fill = blank(width - have);
        text.concat(fill.as_str())
    }
}

/// Joins the parts with `separator` between neighbours.
pub fn join(parts: &Vec<String>, separator: &str) -> (whole: String)
    ensures
        whole@ == joined(texts_of(parts@), separator@),
{
    let mut whole = String::new();
    let mut done: usize = 0;
    while done < parts.len()
        invariant
            done <= parts.len(),
            whole@ == joined(texts_of(parts@).take(done as int), separator@),
        decreases parts.len() - done,
    {
        let ghost before = texts_of(parts@).take(done as int);
        let ghost after = texts_of(parts@).take(done + 1);
        assert(after.drop_last() =~= before);
        assert(after.last() == parts@[done as int]@);
        if done > 0 {
            whole.append(separator);
        }
        whole.append(parts[done].as_str());
        assert(whole@ =~= joined(after, separator@));
        done += 1;
    }
    assert(texts_of(parts@).take(done as int) =~= texts_of(parts@));
    whole
}

} // verus!
