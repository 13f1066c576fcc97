//! Byte strings and lists of them.
use vstd::prelude::*;

use crate::text;

verus! {

/// The views of a list of byte strings.
pub open spec fn byte_strings(list: Seq<Vec<u8>>) -> Seq<Seq<u8>> {
    list.map_values(|item: Vec<u8>| item@)
}

/// Appends `more` to `bytes`.
pub fn push_bytes(bytes: &mut Vec<u8>, more: &[u8])
    ensures
        final(bytes)@ == old(bytes)@ + more@,
{
    let ghost before = bytes@;
    let mut i: usize = 0;
    while i < more.len()
        invariant
            i <= more@.len(),
            bytes@ == before + more@.take(i as int),
        decreases more@.len() - i,
    {
        bytes.push(more[i]);
        i = i + 1;
        assert(bytes@ =~= before + more@.take(i as int));
    }
    assert(more@.take(i as int) =~= more@);
}

/// A copy of the bytes.
pub fn copy(bytes: &[u8]) -> (r: Vec<u8>)
    ensures
        r@ == bytes@,
{
    let mut out: Vec<u8> = Vec::new();
    push_bytes(&mut out, bytes);
    assert(out@ =~= bytes@);
    out
}

/// Splits `raw` at each occurrence of `separator`.
pub fn split_bytes(raw: &[u8], separator: u8) -> (r: Vec<Vec<u8>>)
    ensures
        byte_strings(r@) == text::pieces(raw@, text::equal_to(separator)),
{
    let ghost p = text::equal_to(separator);
    let mut out: Vec<Vec<u8>> = Vec::new();
    let mut start: usize = 0;
    let mut i: usize = 0;
    assert(raw@.skip(0) =~= raw@);
    assert(byte_strings(out@) + text::pieces(raw@.skip(0), p) =~= text::pieces(raw@, p));
    while i < raw.len()
        invariant
            p == text::equal_to(separator),
            start <= i <= raw@.len(),
            forall|j: int| start <= j < i ==> !p(#[trigger] raw@[j]),
            byte_strings(out@) + text::pieces(raw@.skip(start as int), p) == text::pieces(raw@, p),
        decreases raw@.len() - i,
    {
        if raw[i] == separator {
            let ghost before = byte_strings(out@);
            let piece = copy(vstd::slice::slice_subrange(raw, start, i));
            out.push(piece);
            proof {
                text::lemma_pieces_step(raw@, p, start as int, i as int);
                assert(byte_strings(out@) =~= before.push(piece@));
                assert(before + (seq![piece@] + text::pieces(raw@.skip(i + 1), p))
                    =~= before.push(piece@) + text::pieces(raw@.skip(i + 1), p));
            }
            start = i + 1;
        }
        i = i + 1;
    }
    let ghost before = byte_strings(out@);
    let piece = copy(vstd::slice::slice_subrange(raw, start, raw.len()));
    out.push(piece);
    proof {
        text::lemma_pieces_last(raw@, p, start as int);
        assert(byte_strings(out@) =~= before.push(piece@));
        assert(before + seq![piece@] =~= before.push(piece@));
    }
    out
}

/// The predicate that the byte strings that are neither empty nor the given one meet.
pub open spec fn filled_and_not(other: Seq<u8>) -> spec_fn(Seq<u8>) -> bool {
    |part: Seq<u8>| part.len() > 0 && part != other
}

/// Keeps the byte strings that are neither empty nor the given one.
pub fn without(list: &Vec<Vec<u8>>, other: &[u8]) -> (r: Vec<Vec<u8>>)
    ensures
        byte_strings(r@) == byte_strings(list@).filter(filled_and_not(other@)),
{
    let ghost all = byte_strings(list@);
    let ghost p = filled_and_not(other@);
    let mut out: Vec<Vec<u8>> = Vec::new();
    let mut i: usize = 0;
    proof {
        assert(all.take(0).filter(p) =~= byte_strings(out@)) by {
            reveal(Seq::filter);
        }
    }
    while i < list.len()
        invariant
            all == byte_strings(list@),
            p == filled_and_not(other@),
            i <= list@.len(),
            byte_strings(out@) == all.take(i as int).filter(p),
        decreases list@.len() - i,
    {
        let ghost before = byte_strings(out@);
        proof {
            let longer = all.take(i + 1);
            assert(longer.drop_last() =~= all.take(i as int));
            assert(longer.last() == list@[i as int]@);
            assert(longer.filter(p) =~= if p(longer.last()) {
                all.take(i as int).filter(p).push(longer.last())
            } else {
                all.take(i as int).filter(p)
            }) by {
                reveal(Seq::filter);
            }
        }
        if list[i].len() > 0 && !text::same_bytes(list[i].as_slice(), other) {
            let part = copy(list[i].as_slice());
            out.push(part);
            assert(byte_strings(out@) =~= before.push(part@));
        }
        i = i + 1;
    }
    assert(all.take(i as int) =~= all);
    out
}

/// Whether two lists hold the same byte strings.
pub fn same_lists(left: &Vec<Vec<u8>>, right: &Vec<Vec<u8>>) -> (r: bool)
    ensures
        r == (byte_strings(left@) == byte_strings(right@)),
{
    let ghost (a, b) = (byte_strings(left@), byte_strings(right@));
    assert(a.len() == left@.len() && b.len() == right@.len());
    if left.len() != right.len() {
        return false;
    }
    let mut i: usize = 0;
    while i < left.len()
        invariant
            a == byte_strings(left@),
            b == byte_strings(right@),
            left@.len() == right@.len(),
            i <= left@.len(),
            forall|j: int| 0 <= j < i ==> #[trigger] a[j] == b[j],
        decreases left@.len() - i,
    {
        assert(a[i as int] == left@[i as int]@ && b[i as int] == right@[i as int]@);
        if !text::same_bytes(left[i].as_slice(), right[i].as_slice()) {
            return false;
        }
        i = i + 1;
    }
    assert(a =~= b);
    true
}

/// The views of a list of byte strings are those of its items, one for one.
pub proof fn law_byte_strings(list: Seq<Vec<u8>>, i: int)
    requires
        0 <= i < list.len(),
    ensures
        byte_strings(list).len() == list.len(),
        byte_strings(list)[i] == list[i]@,
{
}

/// A byte string is kept unless it is empty or the other one.
pub proof fn law_kept_byte_strings(part: Seq<u8>, other: Seq<u8>)
    ensures
        filled_and_not(other)(part) <==> part.len() > 0 && part != other,
{
}

} // verus!
