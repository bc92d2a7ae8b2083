//! Texts as bytes: the literals of the protocol, comparing, searching
//! and splitting.

use vstd::prelude::*;
use vstd::slice::*;
use vstd::string::*;

verus! {

/// The bytes of an ASCII text, one for each character.
pub open spec fn ascii(text: Seq<char>) -> Seq<u8> {
    Seq::new(text.len(), |i: int| text[i] as u8)
}

/// Whether `text` begins with `prefix`.
pub open spec fn has_prefix(text: Seq<u8>, prefix: Seq<u8>) -> bool {
    prefix.len() <= text.len() && text.take(prefix.len() as int) == prefix
}

/// The bytes of an ASCII string.
pub(crate) fn ascii_bytes(text: &str) -> (bytes: &[u8])
    requires
        is_ascii(text),
    ensures
        bytes@ == ascii(text@),
{
    proof {
        is_ascii_spec_bytes(text);
    }
    text.as_bytes()
}

/// Whether `text` begins with `prefix`.
pub fn starts_with(text: &[u8], prefix: &[u8]) -> (yes: bool)
    ensures
        yes == has_prefix(text@, prefix@),
{
    if prefix.len() > text.len() {
        return false;
    }
    let mut i: usize = 0;
    while i < prefix.len()
        invariant
            i <= prefix.len() <= text.len(),
            text@.take(i as int) == prefix@.take(i as int),
        decreases prefix.len() - i,
    {
        if text[i] != prefix[i] {
            assert(text@.take(prefix.len() as int)[i as int] != prefix@[i as int]);
            return false;
        }
        assert(text@.take(i + 1) == text@.take(i as int).push(text@[i as int]));
        assert(prefix@.take(i + 1) == prefix@.take(i as int).push(prefix@[i as int]));
        i += 1;
    }
    assert(prefix@.take(i as int) == prefix@);
    true
}

/// Whether the two texts are the same.
pub fn same_bytes(left: &[u8], right: &[u8]) -> (same: bool)
    ensures
        same == (left@ == right@),
{
    if left.len() != right.len() {
        return false;
    }
    let same = starts_with(left, right);
    assert(left@.take(left@.len() as int) == left@);
    same
}

/// Whether `sep` stands in `text` at position `at`.
pub open spec fn occurs_at<T>(text: Seq<T>, sep: Seq<T>, at: int) -> bool {
    0 <= at && at + sep.len() <= text.len() && text.subrange(at, at + sep.len()) == sep
}

/// The first position from `from` on at which `sep` stands in `text`.
/// The empty text stands nowhere.
pub open spec fn find_from<T>(text: Seq<T>, sep: Seq<T>, from: int) -> Option<int>
    decreases text.len() - from,
{
    if sep.len() == 0 || from < 0 || from + sep.len() > text.len() {
        None
    } else if occurs_at(text, sep, from) {
        Some(from)
    } else {
        find_from(text, sep, from + 1)
    }
}

/// The pieces of `text` between the occurrences of `sep`, read from the
/// left; a text without the separator is one piece, the empty text too.
pub open spec fn split<T>(text: Seq<T>, sep: Seq<T>) -> Seq<Seq<T>>
    decreases text.len(),
{
    match find_from(text, sep, 0) {
        Some(at) if 0 <= at && at + sep.len() <= text.len() => seq![text.take(at)] + split(
            text.skip(at + sep.len()),
            sep,
        ),
        _ => seq![text],
    }
}

/// Splitting gives at least one piece.
pub proof fn lemma_split_has_a_piece<T>(text: Seq<T>, sep: Seq<T>)
    ensures
        split(text, sep).len() >= 1,
{
}

/// What `find_from` finds is an occurrence from `from` on, and the first.
pub proof fn lemma_find_from<T>(text: Seq<T>, sep: Seq<T>, from: int)
    requires
        0 <= from,
    ensures
        match find_from(text, sep, from) {
            Some(at) => from <= at && occurs_at(text, sep, at) && forall|j: int|
                from <= j < at ==> !occurs_at(text, sep, j),
            None => sep.len() == 0 || forall|j: int| from <= j ==> !occurs_at(text, sep, j),
        },
    decreases text.len() - from,
{
    if sep.len() == 0 || from + sep.len() > text.len() {
    } else if occurs_at(text, sep, from) {
    } else {
        lemma_find_from(text, sep, from + 1);
    }
}

/// An occurrence with none before it is what `find_from` finds from the
/// start.
pub proof fn lemma_find_first<T>(text: Seq<T>, sep: Seq<T>, at: int)
    requires
        sep.len() > 0,
        occurs_at(text, sep, at),
        forall|j: int| 0 <= j < at ==> !occurs_at(text, sep, j),
    ensures
        find_from(text, sep, 0) == Some(at),
{
    lemma_find_from(text, sep, 0);
}

/// A text in which the separator stands nowhere holds none to find.
pub proof fn lemma_find_none<T>(text: Seq<T>, sep: Seq<T>)
    requires
        forall|j: int| 0 <= j ==> !occurs_at(text, sep, j),
    ensures
        find_from(text, sep, 0) is None,
{
    lemma_find_from(text, sep, 0);
}

/// The first position from `from` on at which `sep` stands in `text`.
pub fn find(text: &[u8], sep: &[u8], from: usize) -> (found: Option<usize>)
    ensures
        match found {
            Some(at) => find_from(text@, sep@, from as int) == Some(at as int),
            None => find_from(text@, sep@, from as int) is None,
        },
{
    if sep.len() == 0 || sep.len() > text.len() {
        return None;
    }
    let last: usize = text.len() - sep.len();
    let mut at: usize = from;
    while at <= last
        invariant
            from <= at,
            0 < sep.len() <= text.len(),
            last == text.len() - sep.len(),
            find_from(text@, sep@, from as int) == find_from(text@, sep@, at as int),
        decreases last + 1 - at,
    {
        let rest = slice_subrange(text, at, text.len());
        if starts_with(rest, sep) {
            assert(rest@.take(sep@.len() as int) == text@.subrange(at as int, at + sep@.len()));
            return Some(at);
        }
        assert(rest@.take(sep@.len() as int) == text@.subrange(at as int, at + sep@.len()));
        at += 1;
    }
    None
}

/// The pieces of `text` between the occurrences of `sep`.
pub fn split_on(text: &[u8], sep: &[u8]) -> (pieces: Vec<Vec<u8>>)
    ensures
        pieces@.map_values(|piece: Vec<u8>| piece@) == split(text@, sep@),
{
    let mut pieces: Vec<Vec<u8>> = Vec::new();
    let mut start: usize = 0;
    assert(text@.skip(0) == text@);
    assert(Seq::<Seq<u8>>::empty() + split(text@, sep@) == split(text@, sep@));
    assert(pieces@.map_values(|piece: Vec<u8>| piece@) == Seq::<Seq<u8>>::empty());
    loop
        invariant
            start <= text.len(),
            split(text@, sep@) == pieces@.map_values(|piece: Vec<u8>| piece@) + split(
                text@.skip(start as int),
                sep@,
            ),
        decreases text.len() - start,
    {
        let rest = slice_subrange(text, start, text.len());
        assert(rest@ == text@.skip(start as int));
        let ghost before = pieces@.map_values(|piece: Vec<u8>| piece@);
        match find(rest, sep, 0) {
            Some(at) => {
                proof {
                    lemma_find_from(rest@, sep@, 0);
                }
                let piece = slice_to_vec(slice_subrange(rest, 0, at));
                assert(piece@ == rest@.take(at as int));
                pieces.push(piece);
                assert(pieces@.map_values(|piece: Vec<u8>| piece@) == before.push(
                    rest@.take(at as int),
                ));
                assert(rest@.skip(at + sep@.len()) == text@.skip(start + at + sep@.len()));
                start = start + at + sep.len();
            },
            None => {
                let piece = slice_to_vec(rest);
                pieces.push(piece);
                assert(pieces@.map_values(|piece: Vec<u8>| piece@) == before.push(rest@));
                assert(split(rest@, sep@) == seq![rest@]);
                return pieces;
            },
        }
    }
}

} // verus!
