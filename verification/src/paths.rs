//! Paths as the bytes that they are on Unix.
use vstd::prelude::*;

use crate::bytes;
use crate::text;

verus! {

/// The separator of the parts of a path.
pub const SLASH: u8 = 47;

/// The byte of the part that stands for the directory itself.
pub const DOT: u8 = 46;

/// The bytes of a text.
pub open spec fn bytes_of(s: Seq<char>) -> Seq<u8> {
    vstd::utf8::encode_utf8(s)
}

/// The view of an optional path.
pub open spec fn optional_path(path: Option<&[u8]>) -> Option<Seq<u8>> {
    match path {
        Some(bytes) => Some(bytes@),
        None => None,
    }
}

/// Whether the path begins at the root.
pub open spec fn is_absolute(path: Seq<u8>) -> bool {
    path.len() > 0 && path[0] == SLASH
}

/// The path `name` taken from the directory `base`: an absolute name stands for itself.
pub open spec fn joined(base: Seq<u8>, name: Seq<u8>) -> Seq<u8> {
    if is_absolute(name) {
        name
    } else if base.len() > 0 && base.last() != SLASH {
        base.push(SLASH) + name
    } else {
        base + name
    }
}

/// Tells whether the path begins at the root.
pub fn absolute(path: &[u8]) -> (r: bool)
    ensures
        r == is_absolute(path@),
{
    path.len() > 0 && path[0] == SLASH
}

/// Takes the path `name` from the directory `base`.
pub fn join(base: &[u8], name: &[u8]) -> (r: Vec<u8>)
    ensures
        r@ == joined(base@, name@),
{
    let mut out: Vec<u8> = Vec::new();
    if !absolute(name) {
        bytes::push_bytes(&mut out, base);
        assert(out@ =~= base@);
        if base.len() > 0 && base[base.len() - 1] != SLASH {
            out.push(SLASH);
        }
    }
    bytes::push_bytes(&mut out, name);
    assert(out@ =~= joined(base@, name@));
    out
}

/// The stretches of a path between its separators.
pub open spec fn stretches(path: Seq<u8>) -> Seq<Seq<u8>> {
    text::pieces(path, text::equal_to(SLASH))
}

/// The parts of a path: the stretches that are not empty and do not stand for the directory itself.
/// At the start of a path that is not absolute, one that stands for the directory itself counts
/// too.
pub open spec fn parts(path: Seq<u8>) -> Seq<Seq<u8>> {
    let kept = stretches(path).filter(bytes::filled_and_not(seq![DOT]));
    if stretches(path)[0] == seq![DOT] {
        seq![seq![DOT]] + kept
    } else {
        kept
    }
}

/// Whether two paths have the same parts, both from the root or both not.
pub open spec fn same_parts(left: Seq<u8>, right: Seq<u8>) -> bool {
    is_absolute(left) == is_absolute(right) && parts(left) == parts(right)
}

/// Splits a path into its parts.
pub fn split_path(path: &[u8]) -> (r: Vec<Vec<u8>>)
    ensures
        bytes::byte_strings(r@) == parts(path@),
{
    let all = bytes::split_bytes(path, SLASH);
    let dot: [u8; 1] = [DOT];
    assert(dot@ =~= seq![DOT]);
    let mut kept = bytes::without(&all, &dot);
    assert(bytes::byte_strings(all@).len() == all@.len());
    assert(stretches(path@).len() > 0);
    assert(bytes::byte_strings(all@)[0] == all@[0]@);
    if text::same_bytes(all[0].as_slice(), &dot) {
        let ghost before = bytes::byte_strings(kept@);
        kept.insert(0, bytes::copy(&dot));
        assert(bytes::byte_strings(kept@) =~= seq![seq![DOT]] + before);
    }
    kept
}

/// Tells whether two paths have the same parts.
pub fn equal(left: &[u8], right: &[u8]) -> (r: bool)
    ensures
        r == same_parts(left@, right@),
{
    if absolute(left) != absolute(right) {
        return false;
    }
    bytes::same_lists(&split_path(left), &split_path(right))
}

/// A text that is not empty has bytes.
pub proof fn lemma_bytes_of_text(s: Seq<char>)
    ensures
        s.len() > 0 ==> bytes_of(s).len() > 0,
{
}

proof fn lemma_scalar_without_nul(scalar: u32)
    requires
        scalar != 0,
    ensures
        !vstd::utf8::encode_scalar(scalar).contains(0),
{
    assert(scalar <= 0x7f && scalar != 0 ==> (scalar & 0x7f) as u8 != 0) by (bit_vector);
    assert((0x80 | (scalar & 0x3f) as u8) != 0) by (bit_vector);
    assert((0x80 | ((scalar >> 6) & 0x3f) as u8) != 0) by (bit_vector);
    assert((0x80 | ((scalar >> 12) & 0x3f) as u8) != 0) by (bit_vector);
    assert((0xc0 | ((scalar >> 6) & 0x1f) as u8) != 0) by (bit_vector);
    assert((0xe0 | ((scalar >> 12) & 0x0f) as u8) != 0) by (bit_vector);
    assert((0xf0 | ((scalar >> 18) & 0x07) as u8) != 0) by (bit_vector);
}

/// A text without the character of code zero has no zero byte.
pub proof fn lemma_bytes_without_nul(s: Seq<char>)
    requires
        !s.contains('\0'),
    ensures
        !bytes_of(s).contains(0),
    decreases s.len(),
{
    if s.len() > 0 {
        let rest = s.drop_first();
        assert(!rest.contains('\0')) by {
            assert forall|i: int| 0 <= i < rest.len() implies rest[i] != '\0' by {
                assert(rest[i] == s[i + 1]);
            }
        }
        lemma_bytes_without_nul(rest);
        assert(s[0] != '\0');
        vstd::utf8::char_u32_cast(s[0], s[0] as u32);
        lemma_scalar_without_nul(s[0] as u32);
        let (a, b) = (vstd::utf8::encode_scalar(s[0] as u32), bytes_of(rest));
        assert forall|j: int| 0 <= j < bytes_of(s).len() implies bytes_of(s)[j] != 0 by {
            if j >= a.len() {
                assert(bytes_of(s)[j] == b[j - a.len()]);
            }
        }
    }
}

/// A text that does not begin with a slash is no absolute path.
pub proof fn lemma_text_path_is_relative(s: Seq<char>)
    requires
        s.len() > 0,
        s[0] != '/',
    ensures
        !is_absolute(bytes_of(s)),
{
    let scalar = s[0] as u32;
    vstd::utf8::char_u32_cast(s[0], scalar);
    assert(scalar != 47);
    assert(scalar <= 0x7f && scalar != 47 ==> (scalar & 0x7f) as u8 != 47) by (bit_vector);
    assert((0xc0 | ((scalar >> 6) & 0x1f) as u8) != 47) by (bit_vector);
    assert((0xe0 | ((scalar >> 12) & 0x0f) as u8) != 47) by (bit_vector);
    assert((0xf0 | ((scalar >> 18) & 0x07) as u8) != 47) by (bit_vector);
    assert(bytes_of(s)[0] == vstd::utf8::encode_scalar(scalar)[0]);
}

/// Different names in a directory are different paths, unless one of them is absolute.
pub proof fn lemma_joined_differs(base: Seq<u8>, left: Seq<u8>, right: Seq<u8>)
    requires
        !is_absolute(left),
        !is_absolute(right),
        joined(base, left) == joined(base, right),
    ensures
        left == right,
{
    let front = if base.len() > 0 && base.last() != SLASH {
        base.push(SLASH)
    } else {
        base
    };
    assert(joined(base, left) =~= front + left);
    assert(joined(base, right) =~= front + right);
    assert(left =~= (front + left).skip(front.len() as int));
    assert(right =~= (front + right).skip(front.len() as int));
}

/// The bytes of two texts, one after the other, are the bytes of the whole.
pub proof fn lemma_bytes_of_concatenation(a: Seq<char>, b: Seq<char>)
    ensures
        bytes_of(a + b) == bytes_of(a) + bytes_of(b),
    decreases a.len(),
{
    if a.len() == 0 {
        assert(a + b =~= b);
        assert(bytes_of(a) + bytes_of(b) =~= bytes_of(b));
    } else {
        let rest = a.drop_first();
        lemma_bytes_of_concatenation(rest, b);
        assert((a + b).drop_first() =~= rest + b);
        assert((a + b)[0] == a[0]);
        let first = vstd::utf8::encode_scalar(a[0] as u32);
        assert(bytes_of(a) == first + bytes_of(rest));
        assert(bytes_of(a + b) == first + bytes_of(rest + b));
        assert(first + (bytes_of(rest) + bytes_of(b)) =~= first + bytes_of(rest) + bytes_of(b));
    }
}

/// The bytes of an ASCII text are the codes of its characters.
pub proof fn lemma_ascii_bytes(s: Seq<char>)
    requires
        forall|i: int| 0 <= i < s.len() ==> (#[trigger] s[i]) as u32 <= 0x7f,
    ensures
        bytes_of(s).len() == s.len(),
        forall|i: int| 0 <= i < s.len() ==> #[trigger] bytes_of(s)[i] == s[i] as u32,
    decreases s.len(),
{
    if s.len() > 0 {
        let rest = s.drop_first();
        assert forall|i: int| 0 <= i < rest.len() implies (#[trigger] rest[i]) as u32 <= 0x7f by {
            assert(rest[i] == s[i + 1]);
        }
        lemma_ascii_bytes(rest);
        let scalar = s[0] as u32;
        vstd::utf8::char_u32_cast(s[0], scalar);
        assert(scalar <= 0x7f ==> (scalar & 0x7f) as u8 == scalar) by (bit_vector);
        let first = vstd::utf8::encode_scalar(scalar);
        assert(first =~= seq![scalar as u8]);
        assert(bytes_of(s) == first + bytes_of(rest));
        assert forall|i: int| 0 <= i < s.len() implies #[trigger] bytes_of(s)[i] == s[i] as u32 by {
            if i > 0 {
                assert(bytes_of(s)[i] == bytes_of(rest)[i - 1]);
                assert(s[i] == rest[i - 1]);
            }
        }
    }
}

/// A path from a directory is the directory, a slash and the path, with no second slash where the
/// directory ends in one, and an absolute path is itself.
pub proof fn law_joined_path(base: Seq<u8>, name: Seq<u8>)
    ensures
        name.len() > 0 && name[0] == 47 ==> joined(base, name) == name,
        (name.len() == 0 || name[0] != 47) && base.len() > 0 && base.last() != 47 ==> joined(
            base,
            name,
        ) == base + seq![47u8] + name,
        (name.len() == 0 || name[0] != 47) && base.len() > 0 && base.last() == 47 ==> joined(
            base,
            name,
        ) == base + name,
        (name.len() == 0 || name[0] != 47) && base.len() == 0 ==> joined(base, name) == name,
{
    assert(base.push(SLASH) =~= base + seq![47u8]);
    if base.len() == 0 {
        assert(base + name =~= name);
    }
}

/// A path has the parts of what stands in front of a slash and then those of what stands behind it,
/// if that does not begin with a part that is a single dot.
pub proof fn law_parts_of_two_sides(front: Seq<u8>, back: Seq<u8>)
    requires
        !(back.len() > 0 && back[0] == 46 && (back.len() == 1 || back[1] == 47)),
    ensures
        parts(front + seq![47u8] + back) == parts(front) + parts(back),
{
    let p = text::equal_to(SLASH);
    let keep = bytes::filled_and_not(seq![DOT]);
    text::law_pieces_of_two_sides(front, SLASH, back, p);
    let (a, b) = (stretches(front), stretches(back));
    assert(stretches(front + seq![47u8] + back) == a + b);
    Seq::filter_distributes_over_add(a, b, keep);
    assert((a + b)[0] == a[0]);
    lemma_first_stretch(back);
    if a[0] == seq![DOT] {
        assert(seq![seq![DOT]] + (a.filter(keep) + b.filter(keep)) =~= seq![seq![DOT]] + a.filter(
            keep,
        ) + b.filter(keep));
    }
}

proof fn lemma_first_stretch(path: Seq<u8>)
    ensures
        stretches(path)[0] == seq![DOT] ==> path.len() > 0 && path[0] == 46 && (path.len() == 1
            || path[1] == 47),
{
    let p = text::equal_to(SLASH);
    text::lemma_index_where_holds(path, p);
    let at = text::index_where(path, p);
    if stretches(path)[0] == seq![DOT] {
        assert(stretches(path)[0][0] == DOT);
        if at < path.len() {
            assert(stretches(path)[0] == path.take(at));
            assert(path.take(at)[0] == path[0]);
            assert(p(path[at]));
        } else {
            assert(stretches(path)[0] == path);
        }
    }
}

/// A part that is a single dot does not count behind a slash.
pub proof fn law_dots_do_not_count(front: Seq<u8>, back: Seq<u8>)
    requires
        !(back.len() > 0 && back[0] == 46 && (back.len() == 1 || back[1] == 47)),
    ensures
        parts(front + seq![47u8] + seq![46u8]) == parts(front),
        parts(front + seq![47u8] + (seq![46u8, 47u8] + back)) == parts(front + seq![47u8] + back),
{
    let p = text::equal_to(SLASH);
    let keep = bytes::filled_and_not(seq![DOT]);
    let dot = seq![46u8];
    assert forall|i: int| 0 <= i < dot.len() implies !p(#[trigger] dot[i]) by {}
    text::law_one_piece(dot, p);
    assert(stretches(dot) =~= seq![seq![DOT]]);
    text::law_pieces_of_two_sides(front, SLASH, dot, p);
    text::law_pieces_of_two_sides(front, SLASH, back, p);
    assert(front + seq![47u8] + (seq![46u8, 47u8] + back) =~= (front + seq![47u8] + dot) + seq![47u8]
        + back);
    text::law_pieces_of_two_sides(front + seq![47u8] + dot, SLASH, back, p);
    let (a, b) = (stretches(front), stretches(back));
    Seq::filter_distributes_over_add(a, seq![seq![DOT]], keep);
    Seq::filter_distributes_over_add(a, b, keep);
    Seq::filter_distributes_over_add(a + seq![seq![DOT]], b, keep);
    text::lemma_filter_first(seq![DOT], Seq::<Seq<u8>>::empty(), keep);
    assert(seq![seq![DOT]] + Seq::<Seq<u8>>::empty() =~= seq![seq![DOT]]);
    assert(Seq::<Seq<u8>>::empty().filter(keep) =~= Seq::<Seq<u8>>::empty()) by {
        reveal(Seq::filter);
    }
    assert(a.filter(keep) + Seq::<Seq<u8>>::empty() =~= a.filter(keep));
    assert((a + seq![seq![DOT]])[0] == a[0]);
    assert((a + seq![seq![DOT]] + b)[0] == a[0]);
    assert((a + b)[0] == a[0]);
}

/// An optional path is seen as its bytes.
pub proof fn law_optional_path(path: &[u8])
    ensures
        optional_path(Some(path)) == Some(path@),
        optional_path(None) is None,
{
}

/// A name without a slash is one part, unless it is empty.
pub proof fn law_one_part(name: Seq<u8>)
    requires
        !name.contains(47),
    ensures
        parts(name) == if name.len() == 0 {
            Seq::empty()
        } else {
            seq![name]
        },
{
    let p = text::equal_to(SLASH);
    let keep = bytes::filled_and_not(seq![DOT]);
    assert forall|i: int| 0 <= i < name.len() implies !p(#[trigger] name[i]) by {}
    text::law_one_piece(name, p);
    text::lemma_filter_first(name, Seq::<Seq<u8>>::empty(), keep);
    assert(seq![name] + Seq::<Seq<u8>>::empty() =~= seq![name]);
    assert(Seq::<Seq<u8>>::empty().filter(keep) =~= Seq::<Seq<u8>>::empty()) by {
        reveal(Seq::filter);
    }
    if name == seq![DOT] {
        assert(seq![seq![DOT]] + Seq::<Seq<u8>>::empty() =~= seq![name]);
    }
}

/// Paths are the same if they have the same parts and both begin at the root or neither does.
pub proof fn law_same_parts(left: Seq<u8>, right: Seq<u8>)
    ensures
        same_parts(left, left),
        same_parts(left, right) <==> same_parts(right, left),
        same_parts(left, right) ==> parts(left) == parts(right) && (left.len() > 0 && left[0] == 47
            <==> right.len() > 0 && right[0] == 47),
        parts(left) == parts(right) && (left.len() > 0 && left[0] == 47 <==> right.len() > 0
            && right[0] == 47) ==> same_parts(left, right),
{
}

} // verus!
