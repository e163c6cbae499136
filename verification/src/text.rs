//! Text helpers: strings as sequences of characters.
use vstd::prelude::*;
use vstd::std_specs::iter::IteratorSpec;
use vstd::string::StringExecFns;
use vstd::utf8::{decode_utf8, valid_utf8};

verus! {

/// Appends one character to `s` by calling `String::push`: afterwards `s`
/// holds what it held before, followed by `c`.
#[verifier::external_body]
pub(crate) fn push_char(s: &mut String, c: char)
    ensures
        final(s)@ == old(s)@.push(c),
{
    s.push(c);
}

/// The characters of `s`, in order.
pub fn chars_of(s: &str) -> (v: Vec<char>)
    ensures
        v@ == s@,
{
    broadcast use vstd::string::group_string_axioms;

    let mut v: Vec<char> = Vec::new();
    let start = s.chars();
    for c in it: start
        invariant
            it.seq() == s@,
            v@ == it.seq().take(it.index() as int),
    {
        v.push(c);
    }
    v
}

/// The string made of the characters `v[from..to]`.
pub fn string_of(v: &Vec<char>, from: usize, to: usize) -> (s: String)
    requires
        from <= to <= v.len(),
    ensures
        s@ == v@.subrange(from as int, to as int),
{
    let mut s = String::new();
    let mut i: usize = from;
    while i < to
        invariant
            from <= i <= to <= v.len(),
            s@ == v@.subrange(from as int, i as int),
        decreases to - i,
    {
        push_char(&mut s, v[i]);
        i = i + 1;
    }
    s
}

/// Whether `s` is the text `lit`.
pub fn is_text(s: &String, lit: &str) -> (b: bool)
    ensures
        b == (s@ == lit@),
{
    let t = String::from_str(lit);
    *s == t
}

/// The texts `ws`, with `sep` between each two.
pub open spec fn joined(ws: Seq<Seq<char>>, sep: Seq<char>) -> Seq<char>
    decreases ws.len(),
{
    if ws.len() == 0 {
        Seq::empty()
    } else if ws.len() == 1 {
        ws[0]
    } else {
        joined(ws.drop_last(), sep) + sep + ws.last()
    }
}

/// Joins the texts `ws[from..]` with `sep` between each two.
pub fn join(ws: &Vec<String>, from: usize, sep: &str) -> (r: String)
    requires
        from <= ws.len(),
    ensures
        r@ == joined(ws.deep_view().skip(from as int), sep@),
{
    let ghost all = ws.deep_view().skip(from as int);
    let mut r = String::new();
    let mut k: usize = from;
    while k < ws.len()
        invariant
            from <= k <= ws.len(),
            all == ws.deep_view().skip(from as int),
            r@ == joined(all.take(k - from), sep@),
        decreases ws.len() - k,
    {
        if k > from {
            r.append(sep);
        }
        r.append(ws[k].as_str());
        k = k + 1;
        assert(all.take(k - from).drop_last() == all.take(k - from - 1));
    }
    assert(all.take(ws.len() - from) == all);
    r
}

/// The text that `String::from_utf8_lossy` makes of the bytes `bytes`:
/// their UTF-8 reading, with a replacement character for each part that
/// is not valid.
pub uninterp spec fn lossy_text(bytes: Seq<u8>) -> Seq<char>;

/// Reads bytes as text with `String::from_utf8_lossy`. The result is a
/// function of the bytes alone, named [`lossy_text`]. Of bytes that are
/// valid UTF-8 it is the text that they encode; how others are mended is
/// not stated.
#[verifier::external_body]
pub(crate) fn decode(bytes: &Vec<u8>) -> (s: String)
    ensures
        s@ == lossy_text(bytes@),
        valid_utf8(bytes@) ==> s@ == decode_utf8(bytes@),
{
    String::from_utf8_lossy(bytes).into_owned()
}

/// The text in `o`, if there is one.
pub open spec fn text_of(o: Option<String>) -> Option<Seq<char>> {
    match o {
        Some(s) => Some(s@),
        None => None,
    }
}

} // verus!
