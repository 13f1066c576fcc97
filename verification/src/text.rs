//! Text as a sequence of characters: trimming, splitting, joining, and reading and writing
//! numerals.
use vstd::prelude::*;
use vstd::string::*;

verus! {

/// Trusted: `String::push` appends one character to the end of the string.
pub assume_specification[ String::push ](s: &mut String, c: char)
    ensures
        final(s)@ == old(s)@.push(c),
;

/// The characters of `text`, in order.
pub fn characters(text: &str) -> (r: Vec<char>)
    ensures
        r@ == text@,
{
    let mut out: Vec<char> = Vec::new();
    for ch in it: text.chars()
        invariant
            it.seq() == text@,
            out@ == text@.take(it.index() as int),
    {
        out.push(ch);
    }
    out
}

/// Whether two texts hold the same characters.
pub fn same_text(left: &str, right: &str) -> (r: bool)
    ensures
        r == (left@ == right@),
{
    let a = left.as_bytes();
    let b = right.as_bytes();
    proof {
        encode_utf8_decode_utf8_pair(left@, right@);
    }
    same_bytes(a, b)
}

proof fn encode_utf8_decode_utf8_pair(left: Seq<char>, right: Seq<char>)
    ensures
        vstd::utf8::encode_utf8(left) == vstd::utf8::encode_utf8(right) ==> left == right,
{
    vstd::utf8::encode_utf8_decode_utf8(left);
    vstd::utf8::encode_utf8_decode_utf8(right);
}

/// The views of a list of strings.
pub open spec fn texts(list: Seq<String>) -> Seq<Seq<char>> {
    list.map_values(|item: String| item@)
}

/// The view of an optional string.
pub open spec fn optional_text(text: Option<String>) -> Option<Seq<char>> {
    match text {
        Some(value) => Some(value@),
        None => None,
    }
}

/// Whether two byte strings are equal.
pub fn same_bytes(left: &[u8], right: &[u8]) -> (r: bool)
    ensures
        r == (left@ == right@),
{
    if left.len() != right.len() {
        return false;
    }
    let mut i: usize = 0;
    while i < left.len()
        invariant
            left@.len() == right@.len(),
            i <= left@.len(),
            forall|j: int| 0 <= j < i ==> left@[j] == right@[j],
        decreases left@.len() - i,
    {
        if left[i] != right[i] {
            return false;
        }
        i = i + 1;
    }
    assert(left@ =~= right@);
    true
}

/// The characters with the Unicode property `White_Space`.
pub open spec fn is_white_space(ch: char) -> bool {
    let code = ch as int;
    ||| 0x9 <= code <= 0xd
    ||| code == 0x20
    ||| code == 0x85
    ||| code == 0xa0
    ||| code == 0x1680
    ||| 0x2000 <= code <= 0x200a
    ||| code == 0x2028
    ||| code == 0x2029
    ||| code == 0x202f
    ||| code == 0x205f
    ||| code == 0x3000
}

/// Tells whether `ch` is white space.
pub fn white_space(ch: char) -> (r: bool)
    ensures
        r == is_white_space(ch),
{
    let code: u32 = ch as u32;
    (0x9 <= code && code <= 0xd) || code == 0x20 || code == 0x85 || code == 0xa0 || code == 0x1680
        || (0x2000 <= code && code <= 0x200a) || code == 0x2028 || code == 0x2029 || code == 0x202f
        || code == 0x205f || code == 0x3000
}

/// `s` without the white space it begins with.
pub open spec fn trimmed_start(s: Seq<char>) -> Seq<char>
    decreases s.len(),
{
    if s.len() > 0 && is_white_space(s[0]) {
        trimmed_start(s.drop_first())
    } else {
        s
    }
}

/// `s` without the white space it ends with.
pub open spec fn trimmed_end(s: Seq<char>) -> Seq<char>
    decreases s.len(),
{
    if s.len() > 0 && is_white_space(s.last()) {
        trimmed_end(s.drop_last())
    } else {
        s
    }
}

/// `s` without the white space around it.
pub open spec fn trimmed(s: Seq<char>) -> Seq<char> {
    trimmed_end(trimmed_start(s))
}

proof fn lemma_trimmed_start(s: Seq<char>, from: int)
    requires
        0 <= from <= s.len(),
        forall|j: int| 0 <= j < from ==> is_white_space(#[trigger] s[j]),
        from < s.len() ==> !is_white_space(s[from]),
    ensures
        trimmed_start(s) == s.skip(from),
    decreases from,
{
    if from == 0 {
        assert(s.skip(0) =~= s);
    } else {
        let rest = s.drop_first();
        assert forall|j: int| 0 <= j < from - 1 implies is_white_space(#[trigger] rest[j]) by {
            assert(rest[j] == s[j + 1]);
        }
        lemma_trimmed_start(rest, from - 1);
        assert(rest.skip(from - 1) =~= s.skip(from));
        assert(is_white_space(s[0]));
    }
}

proof fn lemma_trimmed_end(s: Seq<char>, to: int)
    requires
        0 <= to <= s.len(),
        forall|j: int| to <= j < s.len() ==> is_white_space(#[trigger] s[j]),
        to > 0 ==> !is_white_space(s[to - 1]),
    ensures
        trimmed_end(s) == s.take(to),
    decreases s.len() - to,
{
    if to == s.len() {
        assert(s.take(to) =~= s);
    } else {
        let rest = s.drop_last();
        assert forall|j: int| to <= j < rest.len() implies is_white_space(#[trigger] rest[j]) by {
            assert(rest[j] == s[j]);
        }
        lemma_trimmed_end(rest, to);
        assert(rest.take(to) =~= s.take(to));
    }
}

/// Takes the white space around `text` away.
pub fn trim(text: &str) -> (r: &str)
    ensures
        r@ == trimmed(text@),
{
    let cs = characters(text);
    let mut from: usize = 0;
    while from < cs.len() && white_space(cs[from])
        invariant
            cs@ == text@,
            from <= cs@.len(),
            forall|j: int| 0 <= j < from ==> is_white_space(#[trigger] text@[j]),
        decreases cs@.len() - from,
    {
        from = from + 1;
    }
    let mut to: usize = cs.len();
    while to > from && white_space(cs[to - 1])
        invariant
            cs@ == text@,
            from <= to <= cs@.len(),
            forall|j: int| to <= j < cs@.len() ==> is_white_space(#[trigger] text@[j]),
        decreases to,
    {
        to = to - 1;
    }
    proof {
        lemma_trimmed_start(text@, from as int);
        let rest = text@.skip(from as int);
        assert forall|j: int| to - from <= j < rest.len() implies is_white_space(
            #[trigger] rest[j],
        ) by {
            assert(rest[j] == text@[j + from]);
        }
        lemma_trimmed_end(rest, to - from);
        assert(rest.take(to - from) =~= text@.subrange(from as int, to as int));
    }
    text.substring_char(from, to)
}

/// `ch` with an ASCII capital letter made small.
pub open spec fn lower_char(ch: char) -> char {
    if 'A' <= ch <= 'Z' {
        (ch as u32 + 32) as char
    } else {
        ch
    }
}

/// `ch` with a small ASCII letter made capital.
pub open spec fn upper_char(ch: char) -> char {
    if 'a' <= ch <= 'z' {
        (ch as u32 - 32) as char
    } else {
        ch
    }
}

/// `s` with its ASCII capital letters made small.
pub open spec fn lowered(s: Seq<char>) -> Seq<char> {
    s.map_values(|ch: char| lower_char(ch))
}

/// `s` with its small ASCII letters made capital.
pub open spec fn raised(s: Seq<char>) -> Seq<char> {
    s.map_values(|ch: char| upper_char(ch))
}

/// Makes the ASCII capital letters of `text` small.
pub fn lower(text: &str) -> (r: String)
    ensures
        r@ == lowered(text@),
{
    let cs = characters(text);
    let mut out = String::new();
    let mut i: usize = 0;
    while i < cs.len()
        invariant
            cs@ == text@,
            i <= cs@.len(),
            out@ == lowered(text@.take(i as int)),
        decreases cs@.len() - i,
    {
        let ch = cs[i];
        let small: char = if 'A' <= ch && ch <= 'Z' {
            ((ch as u8) + 32) as char
        } else {
            ch
        };
        out.push(small);
        i = i + 1;
        assert(out@ =~= lowered(text@.take(i as int)));
    }
    assert(text@.take(i as int) =~= text@);
    out
}

/// Makes the small ASCII letters of `text` capital.
pub fn upper(text: &str) -> (r: String)
    ensures
        r@ == raised(text@),
{
    let cs = characters(text);
    let mut out = String::new();
    let mut i: usize = 0;
    while i < cs.len()
        invariant
            cs@ == text@,
            i <= cs@.len(),
            out@ == raised(text@.take(i as int)),
        decreases cs@.len() - i,
    {
        let ch = cs[i];
        let capital: char = if 'a' <= ch && ch <= 'z' {
            ((ch as u8) - 32) as char
        } else {
            ch
        };
        out.push(capital);
        i = i + 1;
        assert(out@ =~= raised(text@.take(i as int)));
    }
    assert(text@.take(i as int) =~= text@);
    out
}

/// A word without white space at its ends and without capital letters is its own trimmed and
/// lowered form.
pub proof fn lemma_plain_word(s: Seq<char>)
    requires
        s.len() > 0,
        !is_white_space(s[0]),
        !is_white_space(s.last()),
        forall|i: int| 0 <= i < s.len() ==> !('A' <= #[trigger] s[i] <= 'Z'),
    ensures
        lowered(trimmed(s)) == s,
{
    assert(lowered(s) =~= s);
}

/// The index of the first item of `s` that meets `p`, or the length of `s`.
pub open spec fn index_where<T>(s: Seq<T>, p: spec_fn(T) -> bool) -> int
    decreases s.len(),
{
    if s.len() == 0 || p(s[0]) {
        0
    } else {
        1 + index_where(s.drop_first(), p)
    }
}

/// The pieces of `s` between the items that meet `p`: one more than there are such items.
pub open spec fn pieces<T>(s: Seq<T>, p: spec_fn(T) -> bool) -> Seq<Seq<T>>
    decreases s.len(),
{
    let at = index_where(s, p);
    if 0 <= at < s.len() {
        seq![s.take(at)] + pieces(s.skip(at + 1), p)
    } else {
        seq![s]
    }
}

/// The first index at which `p` holds is the one that `index_where` gives.
pub proof fn lemma_index_where<T>(s: Seq<T>, p: spec_fn(T) -> bool, at: int)
    requires
        0 <= at <= s.len(),
        forall|j: int| 0 <= j < at ==> !p(#[trigger] s[j]),
        at < s.len() ==> p(s[at]),
    ensures
        index_where(s, p) == at,
    decreases at,
{
    if at > 0 {
        assert(!p(s[0]));
        let rest = s.drop_first();
        assert forall|j: int| 0 <= j < at - 1 implies !p(#[trigger] rest[j]) by {
            assert(rest[j] == s[j + 1]);
        }
        lemma_index_where(rest, p, at - 1);
    }
}

/// What `index_where` gives is in range, nothing before it meets `p`, and the item there does.
pub proof fn lemma_index_where_holds<T>(s: Seq<T>, p: spec_fn(T) -> bool)
    ensures
        0 <= index_where(s, p) <= s.len(),
        forall|j: int| 0 <= j < index_where(s, p) ==> !p(#[trigger] s[j]),
        index_where(s, p) < s.len() ==> p(s[index_where(s, p)]),
    decreases s.len(),
{
    if s.len() > 0 && !p(s[0]) {
        let rest = s.drop_first();
        lemma_index_where_holds(rest, p);
        assert forall|j: int| 0 <= j < index_where(s, p) implies !p(#[trigger] s[j]) by {
            if j > 0 {
                assert(rest[j - 1] == s[j]);
            }
        }
    }
}

/// The piece that begins at `start` and ends before the separator at `at` is the first piece of
/// what is left from `start` on.
pub proof fn lemma_pieces_step<T>(s: Seq<T>, p: spec_fn(T) -> bool, start: int, at: int)
    requires
        0 <= start <= at < s.len(),
        forall|j: int| start <= j < at ==> !p(#[trigger] s[j]),
        p(s[at]),
    ensures
        pieces(s.skip(start), p) == seq![s.subrange(start, at)] + pieces(s.skip(at + 1), p),
{
    let rest = s.skip(start);
    assert forall|j: int| 0 <= j < at - start implies !p(#[trigger] rest[j]) by {
        assert(rest[j] == s[j + start]);
    }
    assert(rest[at - start] == s[at]);
    lemma_index_where(rest, p, at - start);
    assert(rest.take(at - start) =~= s.subrange(start, at));
    assert(rest.skip(at - start + 1) =~= s.skip(at + 1));
}

/// What is left from `start` on is one piece if it holds no separator.
pub proof fn lemma_pieces_last<T>(s: Seq<T>, p: spec_fn(T) -> bool, start: int)
    requires
        0 <= start <= s.len(),
        forall|j: int| start <= j < s.len() ==> !p(#[trigger] s[j]),
    ensures
        pieces(s.skip(start), p) == seq![s.subrange(start, s.len() as int)],
{
    let rest = s.skip(start);
    assert forall|j: int| 0 <= j < rest.len() implies !p(#[trigger] rest[j]) by {
        assert(rest[j] == s[j + start]);
    }
    lemma_index_where(rest, p, rest.len() as int);
    assert(rest =~= s.subrange(start, s.len() as int));
}

/// The predicate that one item alone meets.
pub open spec fn equal_to<T>(item: T) -> spec_fn(T) -> bool {
    |other: T| other == item
}

/// The text between the occurrences of a separator.
pub open spec fn split_text(s: Seq<char>, separator: char) -> Seq<Seq<char>> {
    pieces(s, equal_to(separator))
}

/// A copy of the characters from `from` up to `to`.
pub fn slice_text(text: &str, from: usize, to: usize) -> (r: String)
    requires
        from <= to <= text@.len(),
    ensures
        r@ == text@.subrange(from as int, to as int),
{
    text.substring_char(from, to).to_string()
}

/// Splits `text` at each occurrence of `separator`.
pub fn split(text: &str, separator: char) -> (r: Vec<String>)
    ensures
        texts(r@) == split_text(text@, separator),
{
    let cs = characters(text);
    let ghost p = equal_to(separator);
    let mut out: Vec<String> = Vec::new();
    let mut start: usize = 0;
    let mut i: usize = 0;
    assert(text@.skip(0) =~= text@);
    assert(texts(out@) + pieces(text@.skip(0), p) =~= split_text(text@, separator));
    while i < cs.len()
        invariant
            cs@ == text@,
            p == equal_to(separator),
            start <= i <= cs@.len(),
            forall|j: int| start <= j < i ==> !p(#[trigger] text@[j]),
            texts(out@) + pieces(text@.skip(start as int), p) == split_text(text@, separator),
        decreases cs@.len() - i,
    {
        if cs[i] == separator {
            let ghost before = texts(out@);
            let piece = slice_text(text, start, i);
            out.push(piece);
            proof {
                lemma_pieces_step(text@, p, start as int, i as int);
                assert(texts(out@) =~= before.push(piece@));
                assert(before + (seq![piece@] + pieces(text@.skip(i + 1), p)) =~= before.push(
                    piece@,
                ) + pieces(text@.skip(i + 1), p));
            }
            start = i + 1;
        }
        i = i + 1;
    }
    let ghost before = texts(out@);
    let piece = slice_text(text, start, cs.len());
    out.push(piece);
    proof {
        lemma_pieces_last(text@, p, start as int);
        assert(texts(out@) =~= before.push(piece@));
        assert(before + seq![piece@] =~= before.push(piece@));
    }
    out
}

/// Whether `ch` occurs in `text`.
pub fn contains_char(text: &str, ch: char) -> (r: bool)
    ensures
        r == text@.contains(ch),
{
    let cs = characters(text);
    let mut i: usize = 0;
    while i < cs.len()
        invariant
            cs@ == text@,
            i <= cs@.len(),
            forall|j: int| 0 <= j < i ==> text@[j] != ch,
        decreases cs@.len() - i,
    {
        if cs[i] == ch {
            assert(text@[i as int] == ch);
            return true;
        }
        i = i + 1;
    }
    false
}

/// The words of `s`: its longest stretches without white space, in order.
pub open spec fn words_of(s: Seq<char>) -> Seq<Seq<char>> {
    pieces(s, |ch: char| is_white_space(ch)).filter(|word: Seq<char>| word.len() > 0)
}

/// Splits `text` at white space and leaves the empty pieces out.
pub fn words(text: &str) -> (r: Vec<String>)
    ensures
        texts(r@) == words_of(text@),
{
    broadcast use vstd::seq_lib::group_filter_ensures;

    let cs = characters(text);
    let ghost p = |ch: char| is_white_space(ch);
    let ghost filled = |word: Seq<char>| word.len() > 0;
    let mut out: Vec<String> = Vec::new();
    let mut start: usize = 0;
    let mut i: usize = 0;
    assert(text@.skip(0) =~= text@);
    assert(texts(out@) + pieces(text@.skip(0), p).filter(filled) =~= words_of(text@));
    while i < cs.len()
        invariant
            cs@ == text@,
            p == (|ch: char| is_white_space(ch)),
            filled == (|word: Seq<char>| word.len() > 0),
            start <= i <= cs@.len(),
            forall|j: int| start <= j < i ==> !p(#[trigger] text@[j]),
            texts(out@) + pieces(text@.skip(start as int), p).filter(filled) == words_of(text@),
        decreases cs@.len() - i,
    {
        if white_space(cs[i]) {
            let ghost before = texts(out@);
            let ghost piece = text@.subrange(start as int, i as int);
            let ghost rest = pieces(text@.skip(i + 1), p);
            proof {
                lemma_pieces_step(text@, p, start as int, i as int);
                lemma_filter_first(piece, rest, filled);
            }
            if start < i {
                let word = slice_text(text, start, i);
                out.push(word);
                proof {
                    assert(texts(out@) =~= before.push(piece));
                    assert(before + (seq![piece] + rest.filter(filled)) =~= before.push(piece)
                        + rest.filter(filled));
                }
            }
            start = i + 1;
        }
        i = i + 1;
    }
    let ghost before = texts(out@);
    let ghost piece = text@.subrange(start as int, cs@.len() as int);
    proof {
        lemma_pieces_last(text@, p, start as int);
        lemma_filter_first(piece, Seq::<Seq<char>>::empty(), filled);
        assert(seq![piece] + Seq::<Seq<char>>::empty() =~= seq![piece]);
        assert(Seq::<Seq<char>>::empty().filter(filled) =~= Seq::<Seq<char>>::empty()) by {
            reveal(Seq::filter);
        }
    }
    if start < cs.len() {
        let word = slice_text(text, start, cs.len());
        out.push(word);
        proof {
            assert(texts(out@) =~= before.push(piece));
            assert(before + seq![piece] =~= before.push(piece));
        }
    }
    assert(texts(out@) =~= words_of(text@));
    out
}

/// Whether the first item is kept decides how filtering a list goes on.
pub proof fn lemma_filter_first<T>(first: T, rest: Seq<T>, p: spec_fn(T) -> bool)
    ensures
        p(first) ==> (seq![first] + rest).filter(p) == seq![first] + rest.filter(p),
        !p(first) ==> (seq![first] + rest).filter(p) == rest.filter(p),
{
    Seq::filter_distributes_over_add(seq![first], rest, p);
    assert(seq![first].filter(p) =~= if p(first) {
        seq![first]
    } else {
        Seq::<T>::empty()
    }) by {
        reveal(Seq::filter);
        assert(seq![first].drop_last() =~= Seq::<T>::empty());
        assert(Seq::<T>::empty().filter(p) =~= Seq::<T>::empty());
    }
}

/// The parts with `separator` between each two of them.
pub open spec fn joined(parts: Seq<Seq<char>>, separator: Seq<char>) -> Seq<char>
    decreases parts.len(),
{
    if parts.len() == 0 {
        Seq::empty()
    } else if parts.len() == 1 {
        parts[0]
    } else {
        joined(parts.drop_last(), separator) + separator + parts.last()
    }
}

/// Puts `separator` between the parts.
pub fn join(parts: &[String], separator: &str) -> (r: String)
    ensures
        r@ == joined(texts(parts@), separator@),
{
    let mut out = String::new();
    let mut i: usize = 0;
    while i < parts.len()
        invariant
            i <= parts@.len(),
            out@ == joined(texts(parts@).take(i as int), separator@),
        decreases parts@.len() - i,
    {
        let ghost before = texts(parts@).take(i as int);
        if i > 0 {
            out.append(separator);
        }
        out.append(parts[i].as_str());
        i = i + 1;
        proof {
            let after = texts(parts@).take(i as int);
            assert(after.drop_last() =~= before);
            assert(after.last() == parts@[i - 1]@);
            assert(out@ =~= joined(after, separator@));
        }
    }
    assert(texts(parts@).take(i as int) =~= texts(parts@));
    out
}

/// Whether `ch` is an ASCII digit.
pub open spec fn is_digit(ch: char) -> bool {
    '0' <= ch <= '9'
}

/// The value of an ASCII digit.
pub open spec fn digit_value(ch: char) -> int {
    ch as int - '0' as int
}

/// Whether `s` holds ASCII digits alone.
pub open spec fn all_digits(s: Seq<char>) -> bool {
    forall|i: int| 0 <= i < s.len() ==> is_digit(#[trigger] s[i])
}

/// Whether `s` is a plain number: at least one ASCII digit and nothing else.
pub open spec fn is_number(s: Seq<char>) -> bool {
    s.len() > 0 && all_digits(s)
}

/// Tells whether `text` is a plain number.
pub fn number(text: &str) -> (r: bool)
    ensures
        r == is_number(text@),
{
    let cs = characters(text);
    let mut i: usize = 0;
    while i < cs.len()
        invariant
            cs@ == text@,
            i <= cs@.len(),
            forall|j: int| 0 <= j < i ==> is_digit(#[trigger] text@[j]),
        decreases cs@.len() - i,
    {
        let ch = cs[i];
        if !('0' <= ch && ch <= '9') {
            assert(!is_digit(text@[i as int]));
            return false;
        }
        i = i + 1;
    }
    cs.len() > 0
}

/// The number that the decimal digits `s` spell.
pub open spec fn digits_value(s: Seq<char>) -> int
    decreases s.len(),
{
    if s.len() == 0 {
        0
    } else {
        digits_value(s.drop_last()) * 10 + digit_value(s.last())
    }
}

/// What `s` reads as an unsigned number of at most `max`: an optional `+`, then at least one
/// decimal digit and nothing else.
pub open spec fn unsigned_reading(s: Seq<char>, max: int) -> Option<int> {
    let digits = if s.len() > 0 && s[0] == '+' {
        s.drop_first()
    } else {
        s
    };
    if digits.len() > 0 && all_digits(digits) && digits_value(digits) <= max {
        Some(digits_value(digits))
    } else {
        None
    }
}

/// Digits in front of other digits spell no larger a number.
pub proof fn lemma_digits_value_prefix(s: Seq<char>, n: int)
    requires
        all_digits(s),
        0 <= n <= s.len(),
    ensures
        0 <= digits_value(s.take(n)) <= digits_value(s),
    decreases s.len(),
{
    if s.len() == 0 {
        assert(s.take(n) =~= s);
    } else if n == s.len() {
        assert(s.take(n) =~= s);
        let shorter = s.drop_last();
        assert(all_digits(shorter)) by {
            assert forall|i: int| 0 <= i < shorter.len() implies is_digit(
                #[trigger] shorter[i],
            ) by {
                assert(shorter[i] == s[i]);
            }
        }
        lemma_digits_value_prefix(shorter, shorter.len() as int);
        assert(shorter.take(shorter.len() as int) =~= shorter);
        assert(is_digit(s[s.len() - 1]));
    } else {
        let shorter = s.drop_last();
        assert(all_digits(shorter)) by {
            assert forall|i: int| 0 <= i < shorter.len() implies is_digit(
                #[trigger] shorter[i],
            ) by {
                assert(shorter[i] == s[i]);
            }
        }
        lemma_digits_value_prefix(shorter, n);
        assert(shorter.take(n) =~= s.take(n));
        assert(is_digit(s[s.len() - 1]));
    }
}

/// Reads an unsigned number of at most `max`.
pub fn parse_unsigned(text: &str, max: u64) -> (r: Option<u64>)
    ensures
        unsigned_reading(text@, max as int) == match r {
            Some(value) => Some(value as int),
            None => None,
        },
{
    let cs = characters(text);
    let first: usize = if cs.len() > 0 && cs[0] == '+' {
        1
    } else {
        0
    };
    let ghost digits = text@.skip(first as int);
    proof {
        if first == 1 {
            assert(digits =~= text@.drop_first());
        } else {
            assert(digits =~= text@);
        }
    }
    if first == cs.len() {
        return None;
    }
    let mut value: u64 = 0;
    let mut i: usize = first;
    while i < cs.len()
        invariant
            cs@ == text@,
            first <= i <= cs@.len(),
            digits == text@.skip(first as int),
            digits.len() > 0,
            digits == if text@.len() > 0 && text@[0] == '+' {
                text@.drop_first()
            } else {
                text@
            },
            value as int == digits_value(digits.take(i - first)),
            value <= max,
            forall|j: int| 0 <= j < i - first ==> is_digit(#[trigger] digits[j]),
        decreases cs@.len() - i,
    {
        let ch = cs[i];
        assert(digits[i - first] == ch);
        if !('0' <= ch && ch <= '9') {
            assert(!is_digit(digits[i - first]));
            return None;
        }
        let d: u64 = ((ch as u8) - 48) as u64;
        proof {
            let shorter = digits.take(i - first);
            let longer = digits.take(i - first + 1);
            assert(longer.drop_last() =~= shorter);
            assert(longer.last() == ch);
            assert(digits_value(longer) == value * 10 + d);
            if all_digits(digits) {
                lemma_digits_value_prefix(digits, i - first + 1);
            }
        }
        if d > max || value > (max - d) / 10 {
            return None;
        }
        value = value * 10 + d;
        i = i + 1;
    }
    proof {
        assert(digits.take(i - first) =~= digits);
    }
    Some(value)
}

/// The character for a digit below 16.
pub open spec fn digit_char(d: int) -> char {
    if 0 <= d < 10 {
        ('0' as int + d) as char
    } else {
        ('a' as int + (d - 10)) as char
    }
}

/// The numeral of `n` in the given base, without leading zeros.
pub open spec fn numeral(n: int, base: int) -> Seq<char>
    decreases n,
{
    if 2 <= base && base <= n {
        proof {
            vstd::arithmetic::div_mod::lemma_div_decreases(n, base);
            vstd::arithmetic::div_mod::lemma_div_pos_is_pos(n, base);
        }
        numeral(n / base, base).push(digit_char(n % base))
    } else {
        seq![digit_char(n)]
    }
}

/// The decimal numeral of `n`.
pub open spec fn decimal(n: int) -> Seq<char> {
    numeral(n, 10)
}

/// The decimal numeral of `n`, with a zero in front if it has one digit.
pub open spec fn two_digits(n: int) -> Seq<char> {
    if n < 10 {
        "0"@ + decimal(n)
    } else {
        decimal(n)
    }
}

/// Appends the numeral of `n` in the given base.
pub fn push_numeral(out: &mut String, n: u128, base: u128)
    requires
        2 <= base <= 16,
    ensures
        final(out)@ == old(out)@ + numeral(n as int, base as int),
    decreases n,
{
    let ghost before = out@;
    if n >= base {
        proof {
            vstd::arithmetic::div_mod::lemma_div_decreases(n as int, base as int);
        }
        push_numeral(out, n / base, base);
    }
    let ghost middle = out@;
    let d: u8 = (n % base) as u8;
    let ch: char = if d < 10 {
        (48 + d) as char
    } else {
        (97 + (d - 10)) as char
    };
    out.push(ch);
    proof {
        if n >= base {
            assert(out@ =~= before + numeral(n as int, base as int));
        } else {
            assert(n % base == n) by (nonlinear_arith)
                requires
                    0 <= n < base,
            ;
            assert(out@ =~= before + numeral(n as int, base as int));
        }
    }
}

/// Appends the decimal numeral of `n`.
pub fn push_decimal(out: &mut String, n: u64)
    ensures
        final(out)@ == old(out)@ + decimal(n as int),
{
    push_numeral(out, n as u128, 10);
}

/// Appends the decimal numeral of `n`, with a zero in front if it has one digit.
pub fn push_two_digits(out: &mut String, n: u64)
    ensures
        final(out)@ == old(out)@ + two_digits(n as int),
{
    let ghost before = out@;
    if n < 10 {
        out.append("0");
    }
    push_decimal(out, n);
    assert(out@ =~= before + two_digits(n as int));
}

/// The decimal numeral of `n`.
pub fn decimal_text(n: u64) -> (r: String)
    ensures
        r@ == decimal(n as int),
{
    let mut out = String::new();
    push_decimal(&mut out, n);
    assert(out@ =~= decimal(n as int));
    out
}

/// Reading the decimal numeral of a number gives the number back.
pub proof fn law_decimal_reads_back(n: int, max: int)
    requires
        0 <= n <= max,
    ensures
        unsigned_reading(decimal(n), max) == Some(n),
{
    lemma_decimal(n);
    let s = decimal(n);
    assert(is_digit(s[0]));
}

proof fn lemma_decimal(n: int)
    requires
        0 <= n,
    ensures
        decimal(n).len() > 0,
        all_digits(decimal(n)),
        digits_value(decimal(n)) == n,
    decreases n,
{
    let s = decimal(n);
    if n >= 10 {
        lemma_decimal(n / 10);
        let shorter = decimal(n / 10);
        assert(s =~= shorter.push(digit_char(n % 10)));
        assert(s.drop_last() =~= shorter);
        assert forall|i: int| 0 <= i < s.len() implies is_digit(#[trigger] s[i]) by {
            if i < shorter.len() {
                assert(s[i] == shorter[i]);
            }
        }
    } else {
        assert(s.drop_last() =~= Seq::<char>::empty());
        assert(digits_value(s.drop_last()) == 0);
    }
}

/// Whether `ch` is a digit of a base of at most 16.
pub open spec fn is_numeral_char(ch: char) -> bool {
    is_digit(ch) || 'a' <= ch <= 'f'
}

/// A numeral holds digits alone, at least one of them.
pub proof fn lemma_numeral_digits(n: int, base: int)
    requires
        0 <= n,
        2 <= base <= 16,
    ensures
        numeral(n, base).len() > 0,
        n < base <==> numeral(n, base).len() == 1,
        forall|i: int| 0 <= i < numeral(n, base).len() ==> is_numeral_char(
            #[trigger] numeral(n, base)[i],
        ),
    decreases n,
{
    if base <= n {
        vstd::arithmetic::div_mod::lemma_div_decreases(n, base);
        vstd::arithmetic::div_mod::lemma_div_pos_is_pos(n, base);
        vstd::arithmetic::div_mod::lemma_mod_bound(n, base);
        lemma_numeral_digits(n / base, base);
        let front = numeral(n / base, base);
        assert(numeral(n, base) == front.push(digit_char(n % base)));
        assert forall|i: int| 0 <= i < numeral(n, base).len() implies is_numeral_char(
            #[trigger] numeral(n, base)[i],
        ) by {
            if i < front.len() {
                assert(numeral(n, base)[i] == front[i]);
            }
        }
    }
}

/// Different numbers have different numerals.
pub proof fn lemma_numeral_injective(n: int, m: int, base: int)
    requires
        0 <= n,
        0 <= m,
        2 <= base <= 16,
        numeral(n, base) == numeral(m, base),
    ensures
        n == m,
    decreases n,
{
    lemma_numeral_digits(n, base);
    lemma_numeral_digits(m, base);
    if base <= n {
        vstd::arithmetic::div_mod::lemma_div_decreases(n, base);
        vstd::arithmetic::div_mod::lemma_div_pos_is_pos(n, base);
        vstd::arithmetic::div_mod::lemma_div_pos_is_pos(m, base);
        vstd::arithmetic::div_mod::lemma_mod_bound(n, base);
        vstd::arithmetic::div_mod::lemma_mod_bound(m, base);
        let (a, b) = (numeral(n / base, base), numeral(m / base, base));
        assert(a =~= numeral(n, base).drop_last());
        assert(b =~= numeral(m, base).drop_last());
        assert(numeral(n, base).last() == digit_char(n % base));
        assert(numeral(m, base).last() == digit_char(m % base));
        lemma_numeral_injective(n / base, m / base, base);
        vstd::arithmetic::div_mod::lemma_fundamental_div_mod(n, base);
        vstd::arithmetic::div_mod::lemma_fundamental_div_mod(m, base);
    } else {
        assert(numeral(n, base)[0] == digit_char(n));
        assert(numeral(m, base)[0] == digit_char(m));
    }
}

/// The two texts, one after the other.
pub fn concat2(a: &str, b: &str) -> (r: String)
    ensures
        r@ == a@ + b@,
{
    let mut out = a.to_string();
    out.append(b);
    out
}

/// The three texts, one after the other.
pub fn concat3(a: &str, b: &str, c: &str) -> (r: String)
    ensures
        r@ == a@ + b@ + c@,
{
    let mut out = concat2(a, b);
    out.append(c);
    out
}

/// The five texts, one after the other.
pub fn concat5(a: &str, b: &str, c: &str, d: &str, e: &str) -> (r: String)
    ensures
        r@ == a@ + b@ + c@ + d@ + e@,
{
    let mut out = concat3(a, b, c);
    out.append(d);
    out.append(e);
    out
}

/// Whether `text` begins with `prefix`.
pub fn starts_with(text: &str, prefix: &str) -> (r: bool)
    ensures
        r == prefix@.is_prefix_of(text@),
{
    let cs = characters(text);
    let ps = characters(prefix);
    if ps.len() > cs.len() {
        return false;
    }
    let mut i: usize = 0;
    while i < ps.len()
        invariant
            cs@ == text@,
            ps@ == prefix@,
            i <= ps@.len() <= cs@.len(),
            forall|j: int| 0 <= j < i ==> text@[j] == prefix@[j],
        decreases ps@.len() - i,
    {
        if cs[i] != ps[i] {
            assert(text@.subrange(0, prefix@.len() as int)[i as int] == text@[i as int]);
            return false;
        }
        i = i + 1;
    }
    assert(prefix@ =~= text@.subrange(0, prefix@.len() as int));
    true
}

/// What follows `prefix` in `s`, if `s` begins with it.
pub open spec fn after_prefix(s: Seq<char>, prefix: Seq<char>) -> Option<Seq<char>> {
    if prefix.is_prefix_of(s) {
        Some(s.skip(prefix.len() as int))
    } else {
        None
    }
}

/// Takes `prefix` off the front of `text`.
pub fn strip_prefix<'a>(text: &'a str, prefix: &str) -> (r: Option<&'a str>)
    ensures
        after_prefix(text@, prefix@) == match r {
            Some(rest) => Some(rest@),
            None => None,
        },
{
    if starts_with(text, prefix) {
        let rest = text.substring_char(prefix.unicode_len(), text.unicode_len());
        assert(rest@ =~= text@.skip(prefix@.len() as int));
        Some(rest)
    } else {
        None
    }
}

/// The order of texts by their first different character; a text comes after its own beginnings.
pub open spec fn text_before(a: Seq<char>, b: Seq<char>) -> bool
    decreases b.len(),
{
    if b.len() == 0 {
        false
    } else if a.len() == 0 {
        true
    } else {
        a[0] < b[0] || (a[0] == b[0] && text_before(a.drop_first(), b.drop_first()))
    }
}

proof fn lemma_text_before_skips(a: Seq<char>, b: Seq<char>, n: int)
    requires
        0 <= n <= a.len(),
        n <= b.len(),
        forall|j: int| 0 <= j < n ==> a[j] == b[j],
    ensures
        text_before(a, b) == text_before(a.skip(n), b.skip(n)),
    decreases n,
{
    if n == 0 {
        assert(a.skip(0) =~= a);
        assert(b.skip(0) =~= b);
    } else {
        let a1 = a.drop_first();
        let b1 = b.drop_first();
        assert forall|j: int| 0 <= j < n - 1 implies a1[j] == b1[j] by {
            assert(a[j + 1] == b[j + 1]);
        }
        lemma_text_before_skips(a1, b1, n - 1);
        assert(a1.skip(n - 1) =~= a.skip(n));
        assert(b1.skip(n - 1) =~= b.skip(n));
        assert(a[0] == b[0]);
    }
}

/// Whether `left` comes before `right`.
pub fn comes_before(left: &str, right: &str) -> (r: bool)
    ensures
        r == text_before(left@, right@),
{
    let a = characters(left);
    let b = characters(right);
    let mut i: usize = 0;
    while i < a.len() && i < b.len() && a[i] == b[i]
        invariant
            a@ == left@,
            b@ == right@,
            i <= a@.len(),
            i <= b@.len(),
            forall|j: int| 0 <= j < i ==> a@[j] == b@[j],
        decreases a@.len() - i,
    {
        i = i + 1;
    }
    proof {
        lemma_text_before_skips(left@, right@, i as int);
    }
    if i == b.len() {
        false
    } else if i == a.len() {
        true
    } else {
        a[i] < b[i]
    }
}

/// No text comes before itself.
pub proof fn lemma_text_before_irreflexive(a: Seq<char>)
    ensures
        !text_before(a, a),
    decreases a.len(),
{
    if a.len() > 0 {
        lemma_text_before_irreflexive(a.drop_first());
    }
}

/// Of two different texts exactly one comes before the other.
pub proof fn lemma_text_before_total(a: Seq<char>, b: Seq<char>)
    ensures
        a == b || text_before(a, b) || text_before(b, a),
        !(text_before(a, b) && text_before(b, a)),
    decreases a.len(),
{
    if a.len() > 0 && b.len() > 0 && a[0] == b[0] {
        lemma_text_before_total(a.drop_first(), b.drop_first());
        if a.drop_first() == b.drop_first() {
            assert(a =~= seq![a[0]] + a.drop_first());
            assert(b =~= seq![b[0]] + b.drop_first());
        }
    } else if a.len() == 0 && b.len() == 0 {
        assert(a =~= b);
    }
}

/// The order of texts is transitive.
pub proof fn lemma_text_before_transitive(a: Seq<char>, b: Seq<char>, c: Seq<char>)
    requires
        text_before(a, b),
        text_before(b, c),
    ensures
        text_before(a, c),
    decreases a.len(),
{
    if a.len() > 0 && a[0] == b[0] && b[0] == c[0] {
        lemma_text_before_transitive(a.drop_first(), b.drop_first(), c.drop_first());
    }
}

/// White space is what Unicode calls so: tab, line feed, vertical tab, form feed, carriage return,
/// space, next line, no-break space and the spaces and separators of general punctuation and of
/// ideographs.
pub proof fn law_white_space(ch: char)
    ensures
        is_white_space(ch) <==> {
            ||| ch == '\t' || ch == '\n' || ch == '\x0b' || ch == '\x0c' || ch == '\r'
            ||| ch == ' ' || ch == '\u{85}' || ch == '\u{a0}' || ch == '\u{1680}'
            ||| '\u{2000}' <= ch <= '\u{200a}'
            ||| ch == '\u{2028}' || ch == '\u{2029}' || ch == '\u{202f}' || ch == '\u{205f}'
            ||| ch == '\u{3000}'
        },
{
}

proof fn lemma_trimmed_start_at(s: Seq<char>) -> (from: int)
    ensures
        0 <= from <= s.len(),
        trimmed_start(s) == s.skip(from),
        forall|i: int| 0 <= i < from ==> is_white_space(#[trigger] s[i]),
        from < s.len() ==> !is_white_space(s[from]),
{
    let p = |ch: char| !is_white_space(ch);
    lemma_index_where_holds(s, p);
    let from = index_where(s, p);
    assert forall|i: int| 0 <= i < from implies is_white_space(#[trigger] s[i]) by {
        assert(!p(s[i]));
    }
    lemma_trimmed_start(s, from);
    from
}

proof fn lemma_trimmed_end_at(s: Seq<char>) -> (to: int)
    ensures
        0 <= to <= s.len(),
        trimmed_end(s) == s.take(to),
        forall|i: int| to <= i < s.len() ==> is_white_space(#[trigger] s[i]),
        to > 0 ==> !is_white_space(s[to - 1]),
    decreases s.len(),
{
    if s.len() > 0 && is_white_space(s.last()) {
        let to = lemma_trimmed_end_at(s.drop_last());
        assert(s.drop_last().take(to) =~= s.take(to));
        assert forall|i: int| to <= i < s.len() implies is_white_space(#[trigger] s[i]) by {
            if i < s.len() - 1 {
                assert(s.drop_last()[i] == s[i]);
            }
        }
        to
    } else {
        assert(s.take(s.len() as int) =~= s);
        s.len() as int
    }
}

/// Trimming a text takes the white space in front of it and behind it away and nothing else, and
/// leaves none at its ends.
pub proof fn law_trimmed(s: Seq<char>)
    ensures
        exists|from: int, to: int|
            {
                &&& 0 <= from <= to <= s.len()
                &&& trimmed(s) == #[trigger] s.subrange(from, to)
                &&& forall|i: int| 0 <= i < from ==> is_white_space(#[trigger] s[i])
                &&& forall|i: int| to <= i < s.len() ==> is_white_space(#[trigger] s[i])
            },
        trimmed(s).len() > 0 ==> !is_white_space(trimmed(s)[0]) && !is_white_space(
            trimmed(s).last(),
        ),
{
    let from = lemma_trimmed_start_at(s);
    let rest = s.skip(from);
    let length = lemma_trimmed_end_at(rest);
    assert(rest.take(length) =~= s.subrange(from, from + length));
    assert forall|i: int| from + length <= i < s.len() implies is_white_space(#[trigger] s[i]) by {
        assert(rest[i - from] == s[i]);
    }
    assert(trimmed(s) == s.subrange(from, from + length));
}

/// White space around a text does not change its trimmed form.
pub proof fn law_trimming_ignores_surroundings(front: Seq<char>, s: Seq<char>, back: Seq<char>)
    requires
        forall|i: int| 0 <= i < front.len() ==> is_white_space(#[trigger] front[i]),
        forall|i: int| 0 <= i < back.len() ==> is_white_space(#[trigger] back[i]),
        s.len() > 0,
        !is_white_space(s[0]),
        !is_white_space(s.last()),
    ensures
        trimmed(front + s + back) == s,
{
    let whole = front + s + back;
    let from = front.len() as int;
    assert forall|i: int| 0 <= i < from implies is_white_space(#[trigger] whole[i]) by {
        assert(whole[i] == front[i]);
    }
    assert(whole[from] == s[0]);
    lemma_trimmed_start(whole, from);
    let rest = whole.skip(from);
    assert(rest =~= s + back);
    assert forall|i: int| s.len() <= i < rest.len() implies is_white_space(#[trigger] rest[i]) by {
        assert(rest[i] == back[i - s.len()]);
    }
    assert(rest[s.len() - 1] == s.last());
    lemma_trimmed_end(rest, s.len() as int);
    assert(rest.take(s.len() as int) =~= s);
}

/// Making letters small or capital changes ASCII letters of the other kind alone, each into its
/// counterpart.
pub proof fn law_letter_case(s: Seq<char>, i: int)
    requires
        0 <= i < s.len(),
    ensures
        lowered(s).len() == s.len(),
        raised(s).len() == s.len(),
        'A' <= s[i] <= 'Z' ==> lowered(s)[i] as int == s[i] as int + ('a' as int - 'A' as int),
        !('A' <= s[i] <= 'Z') ==> lowered(s)[i] == s[i],
        'a' <= s[i] <= 'z' ==> raised(s)[i] as int == s[i] as int - ('a' as int - 'A' as int),
        !('a' <= s[i] <= 'z') ==> raised(s)[i] == s[i],
{
}

/// What stands on both sides of an item that separates is split for itself.
pub proof fn law_pieces_of_two_sides<T>(
    a: Seq<T>,
    separator: T,
    b: Seq<T>,
    p: spec_fn(T) -> bool,
)
    requires
        p(separator),
    ensures
        pieces(a + seq![separator] + b, p) == pieces(a, p) + pieces(b, p),
    decreases a.len(),
{
    let whole = a + seq![separator] + b;
    lemma_index_where_holds(a, p);
    let at = index_where(a, p);
    if at < a.len() {
        let rest = a.skip(at + 1);
        law_pieces_of_two_sides(rest, separator, b, p);
        assert forall|j: int| 0 <= j < at implies !p(#[trigger] whole[j]) by {
            assert(whole[j] == a[j]);
        }
        assert(whole[at] == a[at]);
        lemma_index_where(whole, p, at);
        assert(whole.take(at) =~= a.take(at));
        assert(whole.skip(at + 1) =~= rest + seq![separator] + b);
        assert(seq![a.take(at)] + (pieces(rest, p) + pieces(b, p)) =~= seq![a.take(at)] + pieces(
            rest,
            p,
        ) + pieces(b, p));
    } else {
        let at = a.len() as int;
        assert forall|j: int| 0 <= j < at implies !p(#[trigger] whole[j]) by {
            assert(whole[j] == a[j]);
        }
        assert(whole[at] == separator);
        lemma_index_where(whole, p, at);
        assert(whole.take(at) =~= a);
        assert(whole.skip(at + 1) =~= b);
    }
}

/// A list without an item that separates is one piece.
pub proof fn law_one_piece<T>(s: Seq<T>, p: spec_fn(T) -> bool)
    requires
        forall|i: int| 0 <= i < s.len() ==> !p(#[trigger] s[i]),
    ensures
        pieces(s, p) == seq![s],
{
    lemma_index_where(s, p, s.len() as int);
}

/// A text in front of white space and one behind it have their words for themselves.
pub proof fn law_words_of_two_sides(a: Seq<char>, space: char, b: Seq<char>)
    requires
        is_white_space(space),
    ensures
        words_of(a + seq![space] + b) == words_of(a) + words_of(b),
{
    let p = |ch: char| is_white_space(ch);
    let filled = |word: Seq<char>| word.len() > 0;
    law_pieces_of_two_sides(a, space, b, p);
    Seq::filter_distributes_over_add(pieces(a, p), pieces(b, p), filled);
}

/// A text without white space is one word, and none if it is empty.
pub proof fn law_one_word(s: Seq<char>)
    requires
        forall|i: int| 0 <= i < s.len() ==> !is_white_space(#[trigger] s[i]),
    ensures
        words_of(s) == if s.len() == 0 {
            Seq::empty()
        } else {
            seq![s]
        },
{
    let p = |ch: char| is_white_space(ch);
    let filled = |word: Seq<char>| word.len() > 0;
    law_one_piece(s, p);
    lemma_filter_first(s, Seq::<Seq<char>>::empty(), filled);
    assert(seq![s] + Seq::<Seq<char>>::empty() =~= seq![s]);
    assert(Seq::<Seq<char>>::empty().filter(filled) =~= Seq::<Seq<char>>::empty()) by {
        reveal(Seq::filter);
    }
}

/// Texts that are joined by a separator that none of them holds are split at it into the same texts.
pub proof fn law_joined_splits(parts: Seq<Seq<char>>, separator: char)
    requires
        parts.len() > 0,
        forall|i: int| 0 <= i < parts.len() ==> !(#[trigger] parts[i]).contains(separator),
    ensures
        split_text(joined(parts, seq![separator]), separator) == parts,
    decreases parts.len(),
{
    let p = equal_to(separator);
    let last = parts.last();
    assert forall|i: int| 0 <= i < last.len() implies !p(#[trigger] last[i]) by {
        assert(!parts[parts.len() - 1].contains(separator));
    }
    law_one_piece(last, p);
    if parts.len() == 1 {
        assert(parts =~= seq![last]);
    } else {
        let front = parts.drop_last();
        assert forall|i: int| 0 <= i < front.len() implies !(#[trigger] front[i]).contains(
            separator,
        ) by {
            assert(front[i] == parts[i]);
        }
        law_joined_splits(front, separator);
        law_pieces_of_two_sides(joined(front, seq![separator]), separator, last, p);
        assert(parts =~= front + seq![last]);
    }
}

/// Words that are joined by spaces are the words of the text that they make.
pub proof fn law_joined_words(words: Seq<Seq<char>>)
    requires
        forall|i: int| 0 <= i < words.len() ==> (#[trigger] words[i]).len() > 0,
        forall|i: int, k: int|
            0 <= i < words.len() && 0 <= k < words[i].len() ==> !is_white_space(
                #[trigger] words[i][k],
            ),
    ensures
        words_of(joined(words, " "@)) == words,
    decreases words.len(),
{
    if words.len() == 0 {
        law_one_word(Seq::empty());
        assert(words =~= Seq::<Seq<char>>::empty());
    } else {
        let last = words.last();
        assert(words[words.len() - 1].len() > 0);
        assert forall|k: int| 0 <= k < last.len() implies !is_white_space(#[trigger] last[k]) by {
            assert(!is_white_space(words[words.len() - 1][k]));
        }
        law_one_word(last);
        if words.len() == 1 {
            assert(words =~= seq![last]);
        } else {
            let front = words.drop_last();
            assert forall|i: int, k: int|
                0 <= i < front.len() && 0 <= k < front[i].len() implies !is_white_space(
                #[trigger] front[i][k],
            ) by {
                assert(front[i][k] == words[i][k]);
            }
            law_joined_words(front);
            reveal_strlit(" ");
            assert(" "@ =~= seq![' ']);
            law_words_of_two_sides(joined(front, " "@), ' ', last);
            assert(words =~= front + seq![last]);
        }
    }
}

/// Digits in front of others count for as many tens as there are others behind them, and a digit
/// alone counts for itself.
pub proof fn law_digits_value(a: Seq<char>, b: Seq<char>, ch: char)
    ensures
        digits_value(a + b) == digits_value(a) * vstd::arithmetic::power::pow(10, b.len())
            + digits_value(b),
        digits_value(seq![ch]) == ch as int - '0' as int,
    decreases b.len(),
{
    assert(seq![ch].drop_last() =~= Seq::<char>::empty());
    assert(digits_value(Seq::<char>::empty()) == 0);
    if b.len() == 0 {
        assert(a + b =~= a);
        vstd::arithmetic::power::lemma_pow0(10);
    } else {
        let front = b.drop_last();
        law_digits_value(a, front, ch);
        assert((a + b).drop_last() =~= a + front);
        assert((a + b).last() == b.last());
        let (x, y) = (digits_value(a), vstd::arithmetic::power::pow(10, front.len()));
        reveal(vstd::arithmetic::power::pow);
        assert(vstd::arithmetic::power::pow(10, b.len()) == 10 * y);
        assert(x * y * 10 == x * (10 * y)) by (nonlinear_arith);
    }
}

/// At least one ASCII digit, with or without a plus in front, reads as its value if that is at most
/// the largest, and any other text reads as no number.
pub proof fn law_unsigned_numbers(s: Seq<char>, max: int)
    ensures
        s.len() > 0 && (forall|i: int| 0 <= i < s.len() ==> '0' <= #[trigger] s[i] <= '9') ==> {
            &&& unsigned_reading(s, max) == if digits_value(s) <= max {
                Some(digits_value(s))
            } else {
                None
            }
            &&& unsigned_reading(seq!['+'] + s, max) == unsigned_reading(s, max)
        },
        s.len() == 0 ==> unsigned_reading(s, max) is None,
        s == seq!['+'] ==> unsigned_reading(s, max) is None,
        (exists|i: int|
            0 <= i < s.len() && !('0' <= #[trigger] s[i] <= '9') && !(i == 0 && s[i] == '+'))
            ==> unsigned_reading(s, max) is None,
{
    if s.len() > 0 && (forall|i: int| 0 <= i < s.len() ==> '0' <= #[trigger] s[i] <= '9') {
        assert(is_digit(s[0]));
        assert((seq!['+'] + s).drop_first() =~= s);
    }
    if exists|i: int|
        0 <= i < s.len() && !('0' <= #[trigger] s[i] <= '9') && !(i == 0 && s[i] == '+') {
        let i = choose|i: int|
            0 <= i < s.len() && !('0' <= #[trigger] s[i] <= '9') && !(i == 0 && s[i] == '+');
        if s[0] == '+' {
            assert(s.drop_first()[i - 1] == s[i]);
            assert(!is_digit(s.drop_first()[i - 1]));
        } else {
            assert(!is_digit(s[i]));
        }
    }
}

/// The number that digits of a base of at most 16 spell.
pub open spec fn value_in(s: Seq<char>, base: int) -> int
    decreases s.len(),
{
    if s.len() == 0 {
        0
    } else {
        value_in(s.drop_last(), base) * base + if '0' <= s.last() <= '9' {
            s.last() as int - '0' as int
        } else {
            s.last() as int - 'a' as int + 10
        }
    }
}

/// Whether a character is a digit of a base of at most 16.
pub open spec fn is_digit_of(ch: char, base: int) -> bool {
    ||| '0' <= ch <= '9' && (ch as int) - ('0' as int) < base
    ||| 'a' <= ch <= 'f' && (ch as int) - ('a' as int) + 10 < base
}

/// A numeral spells its number in its base, in digits of that base, and has no zero in front unless
/// it is the numeral of zero.
pub proof fn law_numeral_spells(n: int, base: int)
    requires
        0 <= n,
        2 <= base <= 16,
    ensures
        value_in(numeral(n, base), base) == n,
        numeral(n, base).len() > 0,
        n > 0 ==> numeral(n, base)[0] != '0',
        forall|i: int|
            0 <= i < numeral(n, base).len() ==> is_digit_of(#[trigger] numeral(n, base)[i], base),
    decreases n,
{
    let s = numeral(n, base);
    if base <= n {
        vstd::arithmetic::div_mod::lemma_div_decreases(n, base);
        vstd::arithmetic::div_mod::lemma_div_pos_is_pos(n, base);
        vstd::arithmetic::div_mod::lemma_mod_bound(n, base);
        vstd::arithmetic::div_mod::lemma_fundamental_div_mod(n, base);
        law_numeral_spells(n / base, base);
        let front = numeral(n / base, base);
        assert(s == front.push(digit_char(n % base)));
        assert(s.drop_last() =~= front);
        assert((n / base) * base == base * (n / base)) by (nonlinear_arith);
        assert(n / base > 0) by (nonlinear_arith)
            requires
                base <= n,
                base >= 2,
        ;
        assert(s[0] == front[0]);
        assert forall|i: int| 0 <= i < s.len() implies is_digit_of(#[trigger] s[i], base) by {
            if i < front.len() {
                assert(s[i] == front[i]);
            }
        }
    } else {
        assert(s.drop_last() =~= Seq::<char>::empty());
        assert(value_in(s.drop_last(), base) == 0);
    }
}

/// A number below a hundred in two digits: its tens and its ones.
pub proof fn law_two_digits(n: int)
    requires
        0 <= n < 100,
    ensures
        two_digits(n).len() == 2,
        two_digits(n)[0] as int == '0' as int + n / 10,
        two_digits(n)[1] as int == '0' as int + n % 10,
{
    reveal_strlit("0");
    reveal_with_fuel(numeral, 3);
}

/// A text comes before another where it has the smaller character at the first place at which they
/// differ, or where it ends there.
pub proof fn law_text_order(a: Seq<char>, b: Seq<char>)
    ensures
        text_before(a, b) <==> exists|k: int|
            {
                &&& 0 <= k <= a.len()
                &&& k < b.len()
                &&& #[trigger] a.take(k) == b.take(k)
                &&& (k == a.len() || a[k] < b[k])
            },
    decreases a.len(),
{
    if a.len() > 0 && b.len() > 0 {
        let (a1, b1) = (a.drop_first(), b.drop_first());
        law_text_order(a1, b1);
        if text_before(a, b) {
            if a[0] < b[0] {
                assert(a.take(0) =~= b.take(0));
            } else {
                let k = choose|k: int|
                    {
                        &&& 0 <= k <= a1.len()
                        &&& k < b1.len()
                        &&& #[trigger] a1.take(k) == b1.take(k)
                        &&& (k == a1.len() || a1[k] < b1[k])
                    };
                assert(a.take(k + 1) =~= seq![a[0]] + a1.take(k));
                assert(b.take(k + 1) =~= seq![b[0]] + b1.take(k));
                assert(a.take(k + 1) == b.take(k + 1));
                assert(k + 1 == a.len() || a[k + 1] < b[k + 1]);
            }
        }
        if exists|k: int|
            {
                &&& 0 <= k <= a.len()
                &&& k < b.len()
                &&& #[trigger] a.take(k) == b.take(k)
                &&& (k == a.len() || a[k] < b[k])
            } {
            let k = choose|k: int|
                {
                    &&& 0 <= k <= a.len()
                    &&& k < b.len()
                    &&& #[trigger] a.take(k) == b.take(k)
                    &&& (k == a.len() || a[k] < b[k])
                };
            if k > 0 {
                assert(a.take(k)[0] == a[0] && b.take(k)[0] == b[0]);
                assert(a1.take(k - 1) =~= a.take(k).drop_first());
                assert(b1.take(k - 1) =~= b.take(k).drop_first());
                assert(a1.take(k - 1) == b1.take(k - 1));
                assert(k - 1 == a1.len() || a1[k - 1] < b1[k - 1]);
            }
        }
    } else if b.len() > 0 {
        assert(a.take(0) =~= b.take(0));
    }
}

/// The views of a list of strings are those of its items, one for one.
pub proof fn law_texts(list: Seq<String>, i: int, text: String)
    requires
        0 <= i < list.len(),
    ensures
        texts(list).len() == list.len(),
        texts(list)[i] == list[i]@,
        optional_text(Some(text)) == Some(text@),
        optional_text(None) is None,
{
}

/// Parts that are joined in two lots are the parts joined in one, with the separator between the
/// lots. A single part is joined to itself, and no part to nothing.
pub proof fn law_joined_of_two(a: Seq<Seq<char>>, b: Seq<Seq<char>>, separator: Seq<char>)
    ensures
        a.len() > 0 && b.len() > 0 ==> joined(a + b, separator) == joined(a, separator) + separator
            + joined(b, separator),
        a.len() == 1 ==> joined(a, separator) == a[0],
        a.len() == 0 ==> joined(a, separator) == Seq::<char>::empty(),
    decreases b.len(),
{
    if a.len() > 0 && b.len() > 0 {
        assert((a + b).drop_last() =~= a + b.drop_last());
        assert((a + b).last() == b.last());
        if b.len() == 1 {
            assert(a + b.drop_last() =~= a);
        } else {
            law_joined_of_two(a, b.drop_last(), separator);
            assert(joined(a, separator) + separator + joined(b.drop_last(), separator) + separator
                + b.last() =~= joined(a, separator) + separator + joined(b, separator));
        }
    }
}

} // verus!
