//! Helpers on strings and sequences of strings that the rest of the crate
//! shares.

use vstd::prelude::*;

verus! {

/// Whether `c` is white space in the sense of `char::is_whitespace`, that is,
/// whether it carries the Unicode property `White_Space`.
pub uninterp spec fn is_whitespace_char(c: char) -> bool;

/// `char::is_whitespace` is taken on trust: its answer depends on the
/// character alone, and is what [`is_whitespace_char`] names.
pub assume_specification[ char::is_whitespace ](c: char) -> (r: bool)
    ensures
        r == is_whitespace_char(c),
;

/// `String::push` is taken on trust: it appends the one character to the end
/// of the string and leaves the rest as it was.
pub assume_specification[ String::push ](s: &mut String, ch: char)
    ensures
        final(s)@ == old(s)@.push(ch),
;

/// The words that a sequence of strings holds, each as a sequence of
/// characters.
pub open spec fn words(v: Seq<String>) -> Seq<Seq<char>> {
    Seq::new(v.len(), |i: int| v[i]@)
}

/// Appending a string appends its characters as one more word.
pub proof fn lemma_words_push(v: Seq<String>, s: String)
    ensures
        words(v.push(s)) == words(v).push(s@),
{
    assert(words(v.push(s)) =~= words(v).push(s@));
}

/// `str`'s own `eq` is taken on trust: two strings are equal exactly when
/// they hold the same characters in the same order.
pub assume_specification[ <str as PartialEq>::eq ](a: &str, b: &str) -> (r: bool)
    ensures
        r == (a@ == b@),
;

/// Whether `s` is the word `word`.
pub fn is_word(s: &String, word: &str) -> (r: bool)
    ensures
        r == (s@ == word@),
{
    s.as_str().eq(word)
}

/// `left` followed by `right`.
pub fn concat(left: &str, right: &str) -> (out: String)
    ensures
        out@ == left@ + right@,
{
    let mut out = String::from_str(left);
    out.append(right);
    out
}

/// The pieces of `ws` written one after the other with `sep` between each
/// two neighbours; nothing for no pieces.
pub open spec fn join_with(ws: Seq<Seq<char>>, sep: char) -> Seq<char>
    decreases ws.len(),
{
    if ws.len() == 0 {
        Seq::empty()
    } else if ws.len() == 1 {
        ws[0]
    } else {
        join_with(ws.drop_last(), sep) + seq![sep] + ws.last()
    }
}

/// The words of `ws` joined with a single space between each two neighbours.
pub open spec fn join_spaced(ws: Seq<Seq<char>>) -> Seq<char> {
    join_with(ws, ' ')
}

/// The words of `ws` from index `from` on; none where `from` is past the end.
pub open spec fn rest_from(ws: Seq<Seq<char>>, from: int) -> Seq<Seq<char>> {
    if 0 <= from <= ws.len() {
        ws.skip(from)
    } else {
        Seq::empty()
    }
}

/// Joins the strings from index `from` on with single spaces.
pub fn join_from(items: &Vec<String>, from: usize) -> (out: String)
    ensures
        out@ == join_spaced(rest_from(words(items@), from as int)),
{
    let mut out = String::new();
    if from >= items.len() {
        assert(rest_from(words(items@), from as int).len() == 0);
        return out;
    }
    let ghost w = words(items@);
    let mut i: usize = from;
    assert(w.subrange(from as int, i as int) =~= Seq::<Seq<char>>::empty());
    while i < items.len()
        invariant
            from <= i <= items.len(),
            w == words(items@),
            out@ == join_spaced(w.subrange(from as int, i as int)),
        decreases items.len() - i,
    {
        if i > from {
            proof {
                reveal_strlit(" ");
                assert(" "@ =~= seq![' ']);
            }
            out.append(" ");
        }
        out.append(items[i].as_str());
        proof {
            let next = w.subrange(from as int, i + 1);
            assert(next.drop_last() =~= w.subrange(from as int, i as int));
            assert(next.last() == items[i as int]@);
            assert(out@ =~= join_spaced(next));
        }
        i += 1;
    }
    assert(w.subrange(from as int, items.len() as int) =~= w.skip(from as int));
    out
}

/// Copies the strings from index `from` on.
pub fn copy_from(items: &Vec<String>, from: usize) -> (out: Vec<String>)
    ensures
        words(out@) == rest_from(words(items@), from as int),
{
    let mut out: Vec<String> = Vec::new();
    if from >= items.len() {
        assert(words(out@) =~= rest_from(words(items@), from as int));
        return out;
    }
    let mut i: usize = from;
    while i < items.len()
        invariant
            from <= i <= items.len(),
            out@.len() == i - from,
            forall|k: int| 0 <= k < out@.len() ==> (#[trigger] out@[k])@ == items@[from + k]@,
        decreases items.len() - i,
    {
        out.push(items[i].clone());
        i += 1;
    }
    assert(words(out@) =~= rest_from(words(items@), from as int));
    out
}

} // verus!
