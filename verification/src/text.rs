//! Character-level helpers on strings: ASCII case folding, searching,
//! splitting and rebuilding.
use vstd::prelude::*;

verus! {

/// `String::push` appends one character at the end and leaves the rest as it was.
pub assume_specification[ String::push ](s: &mut String, c: char)
    ensures
        final(s)@ == old(s)@.push(c),
;

/// The lower-case form of an ASCII upper-case letter; every other character is itself.
pub open spec fn ascii_lower(c: char) -> char {
    if 'A' <= c && c <= 'Z' {
        ((c as u8) + 32) as char
    } else {
        c
    }
}

/// A sequence of characters with every ASCII upper-case letter folded to lower case.
pub open spec fn lower(s: Seq<char>) -> Seq<char> {
    s.map_values(|c: char| ascii_lower(c))
}

/// `needle` occurs in `s` as a run of consecutive characters.
pub open spec fn has_infix(s: Seq<char>, needle: Seq<char>) -> bool {
    exists|i: int| 0 <= i <= s.len() - needle.len() && #[trigger] s.subrange(i, i + needle.len()) == needle
}

/// Computes [`ascii_lower`].
pub fn to_ascii_lower(c: char) -> (r: char)
    ensures
        r == ascii_lower(c),
{
    if 'A' <= c && c <= 'Z' {
        let code: u8 = (c as u8) + 32;
        code as char
    } else {
        c
    }
}

/// The characters of a string, in order.
pub fn chars_of(s: &str) -> (v: Vec<char>)
    ensures
        v@ == s@,
{
    let mut v: Vec<char> = Vec::new();
    for c in it: s.chars()
        invariant
            v@ == it.seq().take(it.index()),
    {
        v.push(c);
    }
    v
}

/// The string made of the given characters, in order.
pub fn string_of(chars: &Vec<char>) -> (s: String)
    ensures
        s@ == chars@,
{
    let mut s = String::new();
    let mut i: usize = 0;
    while i < chars.len()
        invariant
            i <= chars.len(),
            s@ == chars@.take(i as int),
        decreases chars.len() - i,
    {
        s.push(chars[i]);
        i += 1;
    }
    s
}

/// Whether two strings are equal once ASCII letters are folded to one case.
pub fn eq_ignore_ascii_case(a: &str, b: &str) -> (r: bool)
    ensures
        r == (lower(a@) == lower(b@)),
{
    let x = chars_of(a);
    let y = chars_of(b);
    if x.len() != y.len() {
        assert(lower(a@).len() != lower(b@).len());
        return false;
    }
    let mut i: usize = 0;
    while i < x.len()
        invariant
            i <= x.len(),
            x.len() == y.len(),
            x@ == a@,
            y@ == b@,
            lower(x@).take(i as int) == lower(y@).take(i as int),
        decreases x.len() - i,
    {
        if to_ascii_lower(x[i]) != to_ascii_lower(y[i]) {
            assert(lower(x@)[i as int] != lower(y@)[i as int]);
            return false;
        }
        i += 1;
    }
    assert(lower(x@).take(i as int) == lower(x@));
    assert(lower(y@).take(i as int) == lower(y@));
    true
}

/// Whether `needle` occurs in `text` once the ASCII letters of `text` are folded
/// to lower case.
pub fn contains_lowered(text: &str, needle: &str) -> (r: bool)
    ensures
        r == has_infix(lower(text@), needle@),
{
    let x = chars_of(text);
    let n = chars_of(needle);
    if n.len() > x.len() {
        return false;
    }
    let last: usize = x.len() - n.len();
    let mut i: usize = 0;
    while i <= last
        invariant
            x@ == text@,
            n@ == needle@,
            n.len() <= x.len(),
            last == x.len() - n.len(),
            i <= last + 1,
            forall|k: int| 0 <= k < i ==> #[trigger] lower(x@).subrange(k, k + n.len()) != n@,
        decreases last + 1 - i,
    {
        let mut j: usize = 0;
        while j < n.len() && to_ascii_lower(x[i + j]) == n[j]
            invariant
                i <= last,
                last == x.len() - n.len(),
                j <= n.len(),
                forall|k: int| 0 <= k < j ==> ascii_lower(x@[i + k]) == n@[k],
            decreases n.len() - j,
        {
            j += 1;
        }
        if j == n.len() {
            assert(lower(x@).subrange(i as int, i + n.len()) =~= n@);
            return true;
        }
        i += 1;
    }
    false
}

/// A sequence of characters with each `from` exchanged for `to`.
pub open spec fn replaced(s: Seq<char>, from: char, to: char) -> Seq<char> {
    s.map_values(|c: char| if c == from { to } else { c })
}

/// Exchanges every `from` in `s` for `to`.
pub fn replace_char(s: &str, from: char, to: char) -> (r: String)
    ensures
        r@ == replaced(s@, from, to),
{
    let x = chars_of(s);
    let mut r = String::new();
    let mut i: usize = 0;
    while i < x.len()
        invariant
            i <= x.len(),
            r@ == replaced(x@, from, to).take(i as int),
        decreases x.len() - i,
    {
        let c = x[i];
        r.push(if c == from { to } else { c });
        i += 1;
        assert(replaced(x@, from, to).take(i as int) == replaced(x@, from, to).take(i - 1).push(
            replaced(x@, from, to)[i - 1],
        ));
    }
    r
}

/// `s` without its last character where that is a dot; `s` itself otherwise.
pub open spec fn without_trailing_dot(s: Seq<char>) -> Seq<char> {
    if s.len() > 0 && s.last() == '.' {
        s.drop_last()
    } else {
        s
    }
}

/// Removes a single trailing dot, if there is one.
pub fn trim_trailing_dot(s: String) -> (r: String)
    ensures
        r@ == without_trailing_dot(s@),
{
    let mut x = chars_of(s.as_str());
    if x.len() > 0 && x[x.len() - 1] == '.' {
        x.pop();
        string_of(&x)
    } else {
        s
    }
}

/// The pieces of `s` between occurrences of `sep`, in order. There is always
/// one piece more than there are separators, so the pieces of the empty
/// sequence are one empty piece.
pub open spec fn split_on(s: Seq<char>, sep: char) -> Seq<Seq<char>>
    decreases s.len(),
{
    if s.len() == 0 {
        seq![Seq::<char>::empty()]
    } else {
        let before = split_on(s.drop_last(), sep);
        if s.last() == sep {
            before.push(Seq::<char>::empty())
        } else {
            before.drop_last().push(before.last().push(s.last()))
        }
    }
}

/// The pieces put together again with `sep` between neighbours.
pub open spec fn join_with(pieces: Seq<Seq<char>>, sep: char) -> Seq<char>
    decreases pieces.len(),
{
    if pieces.len() == 0 {
        Seq::<char>::empty()
    } else if pieces.len() == 1 {
        pieces[0]
    } else {
        join_with(pieces.drop_last(), sep).push(sep) + pieces.last()
    }
}

/// The views of a sequence of strings.
pub open spec fn texts(v: Seq<String>) -> Seq<Seq<char>> {
    v.map_values(|s: String| s@)
}

/// Splitting yields at least one piece, no piece holds the separator, and
/// joining the pieces with the separator gives the input back.
pub proof fn lemma_split_on(s: Seq<char>, sep: char)
    ensures
        split_on(s, sep).len() >= 1,
        forall|i: int| 0 <= i < split_on(s, sep).len() ==> !(#[trigger] split_on(s, sep)[i]).contains(sep),
        join_with(split_on(s, sep), sep) == s,
    decreases s.len(),
{
    if s.len() > 0 {
        let before = split_on(s.drop_last(), sep);
        let now = split_on(s, sep);
        lemma_split_on(s.drop_last(), sep);
        assert(s =~= s.drop_last().push(s.last()));
        if s.last() == sep {
            assert(now.drop_last() =~= before);
        } else {
            let grown = before.last().push(s.last());
            assert(!grown.contains(sep)) by {
                if grown.contains(sep) {
                    let k = choose|k: int| 0 <= k < grown.len() && grown[k] == sep;
                    assert(before.last()[k] == sep);
                }
            }
            if before.len() > 1 {
                assert(now.drop_last() =~= before.drop_last());
            }
        }
    }
}

/// Splits `s` at every `sep`.
pub fn split(s: &str, sep: char) -> (pieces: Vec<String>)
    ensures
        texts(pieces@) == split_on(s@, sep),
        pieces.len() >= 1,
{
    let x = chars_of(s);
    let mut pieces: Vec<String> = Vec::new();
    let mut piece = String::new();
    let mut i: usize = 0;
    while i < x.len()
        invariant
            i <= x.len(),
            texts(pieces@).push(piece@) == split_on(x@.take(i as int), sep),
        decreases x.len() - i,
    {
        let c = x[i];
        assert(x@.take(i + 1).drop_last() == x@.take(i as int));
        if c == sep {
            pieces.push(piece);
            piece = String::new();
        } else {
            piece.push(c);
        }
        i += 1;
    }
    assert(x@.take(i as int) == x@);
    pieces.push(piece);
    pieces
}

/// What follows the last `/` of `s`; all of `s` where it has none.
pub open spec fn base_name_of(s: Seq<char>) -> Seq<char> {
    split_on(s, '/').last()
}

/// The last component of a name whose components are separated by `/`.
pub fn base_name(name: &str) -> (r: String)
    ensures
        r@ == base_name_of(name@),
{
    let mut pieces = split(name, '/');
    pieces.pop().unwrap()
}

} // verus!
