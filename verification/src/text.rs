//! Small tools for working with text as sequences of characters.
use vstd::prelude::*;

verus! {

broadcast use vstd::string::group_string_axioms;

/// `String::push` of the standard library appends one character to the
/// string and leaves what was there before in place.
pub assume_specification[ String::push ](s: &mut String, c: char)
    ensures
        final(s)@ == old(s)@.push(c),
;

/// The views of `items`, in order.
pub open spec fn views<T: View>(items: Seq<T>) -> Seq<T::V> {
    Seq::new(items.len(), |i: int| items[i]@)
}

/// The pieces of `s` between occurrences of `sep`, in order. There is always
/// one piece more than there are separators, so the empty text has one empty
/// piece and a text that ends in `sep` has an empty last piece.
pub open spec fn split(s: Seq<char>, sep: char) -> Seq<Seq<char>>
    decreases s.len(),
{
    if s.len() == 0 {
        seq![Seq::<char>::empty()]
    } else {
        let before = split(s.drop_last(), sep);
        if s.last() == sep {
            before.push(Seq::<char>::empty())
        } else {
            before.update(before.len() - 1, before.last().push(s.last()))
        }
    }
}

/// The pieces of `pieces` written one after the other with `sep` between
/// neighbours.
pub open spec fn join(pieces: Seq<Seq<char>>, sep: char) -> Seq<char>
    decreases pieces.len(),
{
    if pieces.len() == 0 {
        Seq::<char>::empty()
    } else if pieces.len() == 1 {
        pieces[0]
    } else {
        join(pieces.drop_last(), sep) + seq![sep] + pieces.last()
    }
}

/// Splitting never yields nothing, no piece holds the separator, and joining
/// the pieces with the separator gives the text back.
pub proof fn lemma_split_join(s: Seq<char>, sep: char)
    ensures
        split(s, sep).len() >= 1,
        forall|k: int, j: int|
            0 <= k < split(s, sep).len() && 0 <= j < split(s, sep)[k].len() ==> split(
                s,
                sep,
            )[k][j] != sep,
        join(split(s, sep), sep) == s,
    decreases s.len(),
{
    if s.len() == 0 {
        assert(join(split(s, sep), sep) =~= s);
    } else {
        let shorter = s.drop_last();
        let before = split(shorter, sep);
        lemma_split_join(shorter, sep);
        let now = split(s, sep);
        if s.last() == sep {
            assert(now.drop_last() =~= before);
            assert(join(now, sep) =~= s);
        } else {
            let grown = before.last().push(s.last());
            assert(shorter.push(s.last()) =~= s);
            if before.len() == 1 {
                assert(now.len() == 1 && now[0] == grown);
                assert(join(before, sep) == before[0]);
                assert(join(now, sep) == grown);
            } else {
                assert(now.drop_last() =~= before.drop_last());
                assert(join(now, sep) =~= join(before.drop_last(), sep) + seq![sep] + grown);
                assert(join(now, sep) =~= s);
            }
        }
    }
}

/// The characters of `s`, in order.
pub fn chars_of(s: &str) -> (out: Vec<char>)
    ensures
        out@ == s@,
{
    let mut out: Vec<char> = Vec::new();
    for c in it: s.chars()
        invariant
            it.seq() == s@,
            out@ == it.seq().take(it.index()),
    {
        out.push(c);
    }
    out
}

/// The text made of `chars[from..to]`.
pub fn text_of(chars: &Vec<char>, from: usize, to: usize) -> (out: String)
    requires
        from <= to <= chars.len(),
    ensures
        out@ == chars@.subrange(from as int, to as int),
{
    let mut out = String::new();
    let mut i: usize = from;
    while i < to
        invariant
            from <= i <= to <= chars.len(),
            out@ == chars@.subrange(from as int, i as int),
        decreases to - i,
    {
        out.push(chars[i]);
        i += 1;
    }
    out
}

/// Whether two texts hold the same characters.
pub fn same_text(a: &str, b: &str) -> (same: bool)
    ensures
        same == (a@ == b@),
{
    let left = chars_of(a);
    let right = chars_of(b);
    if left.len() != right.len() {
        return false;
    }
    let mut i: usize = 0;
    while i < left.len()
        invariant
            left@ == a@,
            right@ == b@,
            left.len() == right.len(),
            i <= left.len(),
            left@.take(i as int) == right@.take(i as int),
        decreases left.len() - i,
    {
        if left[i] != right[i] {
            assert(left@[i as int] != right@[i as int]);
            return false;
        }
        assert(left@.take(i + 1) =~= left@.take(i as int).push(left@[i as int]));
        assert(right@.take(i + 1) =~= right@.take(i as int).push(right@[i as int]));
        i += 1;
    }
    assert(left@ =~= left@.take(i as int));
    assert(right@ =~= right@.take(i as int));
    true
}

/// Cuts `text` at every `sep`.
pub fn split_text(text: &str, sep: char) -> (pieces: Vec<Vec<char>>)
    ensures
        views(pieces@) == split(text@, sep),
{
    let mut pieces: Vec<Vec<char>> = Vec::new();
    let mut current: Vec<char> = Vec::new();
    for c in it: text.chars()
        invariant
            it.seq() == text@,
            views(pieces@).push(current@) == split(text@.take(it.index()), sep),
    {
        let ghost seen = text@.take(it.index());
        let ghost next = text@.take(it.index() + 1);
        let ghost before = views(pieces@);
        let ghost piece = current@;
        proof {
            assert(next.drop_last() =~= seen);
            assert(next.last() == c);
        }
        if c == sep {
            pieces.push(current);
            current = Vec::new();
            proof {
                assert(views(pieces@) =~= before.push(piece));
            }
        } else {
            current.push(c);
            proof {
                assert(before.push(current@) =~= before.push(piece).update(
                    before.len() as int,
                    piece.push(c),
                ));
            }
        }
    }
    proof {
        assert(text@.take(text@.len() as int) =~= text@);
    }
    let ghost before = views(pieces@);
    pieces.push(current);
    proof {
        assert(views(pieces@) =~= before.push(current@));
    }
    pieces
}

} // verus!
