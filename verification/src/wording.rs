//! The wording of an alarm: how it is brought into one form, and what parts of it read as a
//! duration, as a time of day, and as a date beside a time.
use vstd::prelude::*;
use vstd::string::*;

use crate::calendar::{self, ClockTime, TimeSpan};
use crate::text;

verus! {

/// The wording with single spaces between its words, and with `am` or `pm` at its end in capital
/// letters.
pub open spec fn normalized(input: Seq<char>) -> Seq<char> {
    let spaced = text::joined(text::words_of(input), " "@);
    let at = spaced.len() - 2;
    if at >= 0 && (text::lowered(spaced.skip(at)) == "am"@ || text::lowered(spaced.skip(at))
        == "pm"@) {
        spaced.take(at) + text::raised(spaced.skip(at))
    } else {
        spaced
    }
}

/// Brings a wording into one form.
pub fn normalize_spec_text(input: &str) -> (r: String)
    ensures
        r@ == normalized(input@),
{
    let words = text::words(input);
    let spaced = text::join(words.as_slice(), " ");
    let length = spaced.as_str().unicode_len();
    if length < 2 {
        return spaced;
    }
    let tail = spaced.as_str().substring_char(length - 2, length);
    assert(tail@ =~= spaced@.skip(spaced@.len() - 2));
    let small = text::lower(tail);
    if text::same_text(small.as_str(), "am") || text::same_text(small.as_str(), "pm") {
        let front = spaced.as_str().substring_char(0, length - 2);
        assert(front@ =~= spaced@.take(spaced@.len() - 2));
        let capital = text::upper(tail);
        text::concat2(front, capital.as_str())
    } else {
        spaced
    }
}

/// The part of a wording that may be a duration: what follows `in`, or all of it.
pub open spec fn duration_part(wording: Seq<char>) -> Seq<char> {
    match text::after_prefix(wording, "in "@) {
        Some(rest) => text::trimmed(rest),
        None => wording,
    }
}

/// Finds the part of a wording that may be a duration.
pub fn find_duration_part(wording: &str) -> (r: &str)
    ensures
        r@ == duration_part(wording@),
{
    match text::strip_prefix(wording, "in ") {
        Some(rest) => text::trim(rest),
        None => wording,
    }
}

/// Whether a character can occur in a duration.
pub open spec fn in_duration(ch: char) -> bool {
    ||| text::is_digit(ch)
    ||| 'a' <= ch <= 'z'
    ||| 'A' <= ch <= 'Z'
    ||| ch == '\u{b5}'
    ||| ch == '.'
    ||| text::is_white_space(ch)
}

/// The number of digits in front of the first character that cannot occur in a duration.
pub open spec fn duration_digits(s: Seq<char>) -> int
    decreases s.len(),
{
    if s.len() == 0 || !in_duration(s[0]) {
        0
    } else if text::is_digit(s[0]) {
        1 + duration_digits(s.drop_first())
    } else {
        duration_digits(s.drop_first())
    }
}

/// A text has no more such digits than characters.
pub proof fn lemma_duration_digits(s: Seq<char>)
    ensures
        0 <= duration_digits(s) <= s.len(),
    decreases s.len(),
{
    if s.len() > 0 {
        lemma_duration_digits(s.drop_first());
    }
}

/// Whether all characters can occur in a duration.
spec fn all_in_duration(s: Seq<char>) -> bool {
    forall|i: int| 0 <= i < s.len() ==> in_duration(#[trigger] s[i])
}

proof fn lemma_digits_of_concatenation(a: Seq<char>, b: Seq<char>)
    ensures
        duration_digits(a + b) == duration_digits(a) + if all_in_duration(a) {
            duration_digits(b)
        } else {
            0
        },
    decreases a.len(),
{
    if a.len() == 0 {
        assert(a + b =~= b);
    } else {
        let rest = a.drop_first();
        assert((a + b).drop_first() =~= rest + b);
        lemma_digits_of_concatenation(rest, b);
        if in_duration(a[0]) {
            assert(all_in_duration(a) == all_in_duration(rest)) by {
                assert forall|i: int| 0 <= i < rest.len() && all_in_duration(a) implies in_duration(
                    #[trigger] rest[i],
                ) by {
                    assert(rest[i] == a[i + 1]);
                }
                assert forall|i: int| 0 <= i < a.len() && all_in_duration(rest) implies in_duration(
                    #[trigger] a[i],
                ) by {
                    if i > 0 {
                        assert(a[i] == rest[i - 1]);
                    }
                }
            }
        } else {
            assert(!in_duration(a[0]));
            assert(!all_in_duration(a));
        }
    }
}

/// Characters of the same kind at each place make for the same digits.
proof fn lemma_digits_of_same_kind(a: Seq<char>, b: Seq<char>)
    requires
        a.len() == b.len(),
        forall|i: int|
            0 <= i < a.len() ==> in_duration(#[trigger] a[i]) == in_duration(b[i])
                && text::is_digit(a[i]) == text::is_digit(b[i]),
    ensures
        duration_digits(a) == duration_digits(b),
    decreases a.len(),
{
    if a.len() > 0 {
        let (ra, rb) = (a.drop_first(), b.drop_first());
        assert forall|i: int| 0 <= i < ra.len() implies in_duration(#[trigger] ra[i])
            == in_duration(rb[i]) && text::is_digit(ra[i]) == text::is_digit(rb[i]) by {
            assert(ra[i] == a[i + 1] && rb[i] == b[i + 1]);
        }
        lemma_digits_of_same_kind(ra, rb);
        assert(in_duration(a[0]) == in_duration(b[0]));
    }
}

proof fn lemma_digits_of_trimmed(s: Seq<char>)
    ensures
        duration_digits(text::trimmed(s)) <= duration_digits(s),
{
    lemma_digits_of_trimmed_start(s);
    lemma_digits_of_trimmed_end(text::trimmed_start(s));
}

proof fn lemma_digits_of_trimmed_start(s: Seq<char>)
    ensures
        duration_digits(text::trimmed_start(s)) == duration_digits(s),
    decreases s.len(),
{
    if s.len() > 0 && text::is_white_space(s[0]) {
        lemma_digits_of_trimmed_start(s.drop_first());
    }
}

proof fn lemma_digits_of_trimmed_end(s: Seq<char>)
    ensures
        duration_digits(text::trimmed_end(s)) <= duration_digits(s),
    decreases s.len(),
{
    if s.len() > 0 && text::is_white_space(s.last()) {
        lemma_digits_of_trimmed_end(s.drop_last());
        lemma_digits_of_concatenation(s.drop_last(), seq![s.last()]);
        assert(s.drop_last() + seq![s.last()] =~= s);
        lemma_duration_digits(seq![s.last()]);
    }
}

proof fn lemma_joined_front(first: Seq<char>, rest: Seq<Seq<char>>, separator: Seq<char>)
    ensures
        text::joined(seq![first] + rest, separator) == if rest.len() == 0 {
            first
        } else {
            first + separator + text::joined(rest, separator)
        },
    decreases rest.len(),
{
    let all = seq![first] + rest;
    if rest.len() == 0 {
        assert(all =~= seq![first]);
    } else {
        assert(all.drop_last() =~= seq![first] + rest.drop_last());
        lemma_joined_front(first, rest.drop_last(), separator);
        assert(all.last() == rest.last());
        if rest.len() == 1 {
            assert(rest.drop_last().len() == 0);
            assert(text::joined(all, separator) =~= first + separator + text::joined(
                rest,
                separator,
            ));
        } else {
            assert(text::joined(all, separator) =~= first + separator + text::joined(
                rest,
                separator,
            ));
        }
    }
}

/// The predicate that white space meets.
spec fn blank() -> spec_fn(char) -> bool {
    |ch: char| text::is_white_space(ch)
}

/// The predicate that words meet.
spec fn filled() -> spec_fn(Seq<char>) -> bool {
    |word: Seq<char>| word.len() > 0
}

proof fn lemma_digits_of_words(s: Seq<char>)
    ensures
        duration_digits(text::joined(text::words_of(s), " "@)) == duration_digits(s),
    decreases s.len(),
{
    broadcast use vstd::seq_lib::group_filter_ensures;

    let at = text::index_where(s, blank());
    text::lemma_index_where_holds(s, blank());
    assert(text::words_of(s) == text::pieces(s, blank()).filter(filled()));
    assert(Seq::<Seq<char>>::empty().filter(filled()) =~= Seq::<Seq<char>>::empty()) by {
        reveal(Seq::filter);
    }
    reveal_strlit(" ");
    if at < s.len() {
        let first = s.take(at);
        let rest = s.skip(at + 1);
        let tail = text::pieces(rest, blank());
        lemma_digits_of_words(rest);
        let words = text::words_of(rest);
        assert(text::pieces(s, blank()) == seq![first] + tail);
        text::lemma_filter_first(first, tail, filled());
        assert(s =~= first + (seq![s[at]] + rest));
        lemma_digits_of_concatenation(first, seq![s[at]] + rest);
        lemma_digits_of_concatenation(seq![s[at]], rest);
        assert(seq![s[at]].drop_first() =~= Seq::<char>::empty());
        assert(blank()(s[at]));
        assert(all_in_duration(seq![s[at]]));
        if first.len() > 0 {
            lemma_joined_front(first, words, " "@);
            lemma_digits_of_concatenation(first, " "@ + text::joined(words, " "@));
            lemma_digits_of_concatenation(" "@, text::joined(words, " "@));
            assert(" "@.drop_first() =~= Seq::<char>::empty());
            assert(all_in_duration(" "@));
            assert(first + " "@ + text::joined(words, " "@) =~= first + (" "@ + text::joined(
                words,
                " "@,
            )));
            if words.len() == 0 {
                assert(text::joined(words, " "@) =~= Seq::<char>::empty());
            }
        } else {
            assert(first =~= Seq::<char>::empty());
        }
    } else {
        assert(text::pieces(s, blank()) == seq![s]);
        text::lemma_filter_first(s, Seq::<Seq<char>>::empty(), filled());
        assert(seq![s] + Seq::<Seq<char>>::empty() =~= seq![s]);
        if s.len() == 0 {
            assert(text::joined(Seq::<Seq<char>>::empty(), " "@) =~= s);
        }
    }
}

/// The part of a wording that may be a duration has no more such digits than the wording.
pub proof fn lemma_digits_of_duration_part(input: Seq<char>)
    ensures
        duration_digits(duration_part(normalized(input))) <= duration_digits(input),
{
    let spaced = text::joined(text::words_of(input), " "@);
    lemma_digits_of_words(input);
    let wording = normalized(input);
    assert forall|i: int| 0 <= i < spaced.len() implies in_duration(#[trigger] spaced[i])
        == in_duration(wording[i]) && text::is_digit(spaced[i]) == text::is_digit(wording[i]) by {
        if wording != spaced && i >= spaced.len() - 2 {
            assert(wording[i] == text::upper_char(spaced[i]));
        }
    }
    lemma_digits_of_same_kind(spaced, wording);
    match text::after_prefix(wording, "in "@) {
        Some(rest) => {
            reveal_strlit("in ");
            assert(wording =~= "in "@ + rest);
            lemma_digits_of_concatenation("in "@, rest);
            assert("in "@.drop_first().drop_first().drop_first() =~= Seq::<char>::empty());
            reveal_with_fuel(duration_digits, 4);
            assert(all_in_duration("in "@));
            lemma_digits_of_trimmed(rest);
        },
        None => {},
    }
}

/// The number of such digits below which a span stays shorter than `u64::MAX` seconds to which
/// parts of a second add one second more. Written in years, the longest unit, that many seconds
/// take twelve digits, and the parts of a second two more.
pub const DURATION_DIGITS: usize = 14;

/// Counts the digits in front of the first character that cannot occur in a duration.
pub fn count_duration_digits(s: &str) -> (r: usize)
    ensures
        r == duration_digits(s@),
{
    let cs = text::characters(s);
    let mut count: usize = 0;
    let mut i: usize = 0;
    assert(s@.skip(0) =~= s@);
    while i < cs.len()
        invariant
            cs@ == s@,
            count <= i <= cs@.len(),
            duration_digits(s@) == count + duration_digits(s@.skip(i as int)),
        decreases cs@.len() - i,
    {
        let ch = cs[i];
        assert(s@.skip(i as int).drop_first() =~= s@.skip(i + 1));
        let digit = '0' <= ch && ch <= '9';
        if !(digit || ('a' <= ch && ch <= 'z') || ('A' <= ch && ch <= 'Z') || ch == '\u{b5}'
            || ch == '.' || text::white_space(ch)) {
            return count;
        }
        if digit {
            count = count + 1;
        }
        i = i + 1;
    }
    count
}

/// What `humantime::parse_duration` reads in a text, as whole seconds and nanoseconds past them.
pub uninterp spec fn duration_reading(text: Seq<char>) -> Option<(int, int)>;

/// The units in which a number can have a fraction that ends within a second.
pub open spec fn fraction_units() -> Seq<Seq<char>> {
    seq!["s"@, "m"@, "ms"@, "us"@]
}

/// Whether a text reads as `u64::MAX` whole seconds.
pub open spec fn fills_seconds(text: Seq<char>) -> bool {
    duration_reading(text) matches Some(span) && span.0 == u64::MAX
}

/// Whether a text reads as `u64::MAX` whole seconds and some part of a second.
pub open spec fn exceeds_seconds(text: Seq<char>) -> bool {
    duration_reading(text) matches Some(span) && span.0 == u64::MAX && span.1 > 0
}

/// Whether parts of a second can be added at the given place of a text. Where a number begins,
/// what stands in front of it is not yet `u64::MAX` whole seconds. Where a fraction begins, what
/// stands in front of it, in any unit that the fraction can have, is not more than that.
pub open spec fn leaves_room(text: Seq<char>, at: int) -> bool {
    &&& text::is_digit(text[at]) ==> !fills_seconds(text.take(at))
    &&& text[at] == '.' ==> forall|k: int|
        0 <= k < fraction_units().len() ==> !exceeds_seconds(
            text.take(at) + #[trigger] fraction_units()[k],
        )
}

/// Whether a text can be read as a duration: parts of a second never add up to one second more
/// than `u64::MAX` seconds.
pub open spec fn readable_duration(text: Seq<char>) -> bool {
    ||| duration_digits(text) < DURATION_DIGITS
    ||| forall|at: int| 0 <= at < text.len() ==> #[trigger] leaves_room(text, at)
}

/// Trusted: calls `humantime::parse_duration`. The nanoseconds of what it reads are a part of a
/// second. It adds up the numbers of the text, each in its unit, from the front on, first the whole
/// number and then its fraction, and returns an error where the seconds overflow. It panics only
/// where the sum so far has `u64::MAX` whole seconds and the next addend, a number in a unit below
/// the second or the fraction of a number, brings the nanoseconds to exactly one second. On top of
/// whole seconds a fraction never does: in seconds or less it stays below one second, and no
/// decimal fraction of a minute is one second.
#[verifier::external_body]
fn read_duration(text: &str) -> (r: Option<TimeSpan>)
    requires
        readable_duration(text@),
    ensures
        match r {
            Some(span) => {
                &&& span.wf()
                &&& duration_reading(text@) == Some((span.secs as int, span.nanos as int))
            },
            None => duration_reading(text@) is None,
        },
{
    match humantime::parse_duration(text) {
        Ok(span) => Some(TimeSpan { secs: span.as_secs(), nanos: span.subsec_nanos() }),
        Err(_) => None,
    }
}

/// Whether parts of a second can be added at a place depends on what stands up to it alone.
proof fn lemma_room_of_front(a: Seq<char>, b: Seq<char>, at: int)
    requires
        0 <= at < a.len(),
        at < b.len(),
        a.take(at + 1) == b.take(at + 1),
    ensures
        leaves_room(a, at) == leaves_room(b, at),
{
    assert(a.take(at) =~= a.take(at + 1).take(at));
    assert(b.take(at) =~= b.take(at + 1).take(at));
    assert(a[at] == a.take(at + 1)[at]);
    assert(b[at] == b.take(at + 1)[at]);
}

/// A front part of a text, followed by letters, can be read if parts of a second can be added at
/// each of its places.
proof fn lemma_front_is_readable(text: Seq<char>, to: int, tail: Seq<char>)
    requires
        0 <= to <= text.len(),
        forall|at: int| 0 <= at < to ==> #[trigger] leaves_room(text, at),
        forall|i: int| 0 <= i < tail.len() ==> !text::is_digit(#[trigger] tail[i]) && tail[i] != '.',
    ensures
        readable_duration(text.take(to) + tail),
{
    let front = text.take(to) + tail;
    assert forall|at: int| 0 <= at < front.len() implies #[trigger] leaves_room(front, at) by {
        if at < to {
            assert(front.take(at + 1) =~= text.take(at + 1));
            lemma_room_of_front(text, front, at);
        } else {
            assert(front[at] == tail[at - to]);
        }
    }
}

/// Tells whether parts of a second can be added at a place of a text, if they can at those before.
fn room_left(text: &str, at: usize, ch: char) -> (r: bool)
    requires
        at < text@.len(),
        ch == text@[at as int],
        forall|i: int| 0 <= i < at ==> #[trigger] leaves_room(text@, i),
    ensures
        r == leaves_room(text@, at as int),
{
    let front = text::slice_text(text, 0, at);
    assert(front@ =~= text@.take(at as int));
    if '0' <= ch && ch <= '9' {
        proof {
            lemma_front_is_readable(text@, at as int, Seq::empty());
            assert(text@.take(at as int) + Seq::<char>::empty() =~= front@);
        }
        return match read_duration(front.as_str()) {
            Some(span) => span.secs != u64::MAX,
            None => true,
        };
    }
    if ch != '.' {
        return true;
    }
    let units: [&str; 4] = ["s", "m", "ms", "us"];
    proof {
        reveal_strlit("s");
        reveal_strlit("m");
        reveal_strlit("ms");
        reveal_strlit("us");
    }
    let mut k: usize = 0;
    while k < units.len()
        invariant
            k <= units@.len() == fraction_units().len(),
            front@ == text@.take(at as int),
            at < text@.len(),
            text@[at as int] == '.',
            forall|i: int| 0 <= i < at ==> #[trigger] leaves_room(text@, i),
            forall|j: int| 0 <= j < units@.len() ==> fraction_units()[j] == #[trigger] units@[j]@,
            forall|j: int, i: int|
                0 <= j < units@.len() && 0 <= i < units@[j]@.len() ==> !text::is_digit(
                    #[trigger] units@[j]@[i],
                ) && units@[j]@[i] != '.',
            forall|j: int|
                0 <= j < k ==> !exceeds_seconds(front@ + #[trigger] fraction_units()[j]),
        decreases units@.len() - k,
    {
        proof {
            lemma_front_is_readable(text@, at as int, units@[k as int]@);
        }
        let probe = text::concat2(front.as_str(), units[k]);
        assert(probe@ == front@ + fraction_units()[k as int]);
        match read_duration(probe.as_str()) {
            Some(span) => {
                if span.secs == u64::MAX && span.nanos > 0 {
                    return false;
                }
            },
            None => {},
        }
        k = k + 1;
    }
    true
}

/// Tells whether a text can be read as a duration.
pub fn is_readable_duration(text: &str) -> (r: bool)
    ensures
        r == readable_duration(text@),
{
    if count_duration_digits(text) < DURATION_DIGITS {
        return true;
    }
    let cs = text::characters(text);
    let mut at: usize = 0;
    while at < cs.len()
        invariant
            cs@ == text@,
            duration_digits(text@) >= DURATION_DIGITS,
            at <= cs@.len(),
            forall|i: int| 0 <= i < at ==> #[trigger] leaves_room(text@, i),
        decreases cs@.len() - at,
    {
        if !room_left(text, at, cs[at]) {
            return false;
        }
        at = at + 1;
    }
    true
}

/// The span that a wording reads as.
pub open spec fn span_reading(wording: Seq<char>) -> Option<TimeSpan> {
    match duration_reading(duration_part(wording)) {
        Some(span) => Some(TimeSpan { secs: span.0 as u64, nanos: span.1 as u32 }),
        None => None,
    }
}

/// Reads a wording as a span.
pub fn parse_span(wording: &str) -> (r: Option<TimeSpan>)
    requires
        readable_duration(duration_part(wording@)),
    ensures
        r == span_reading(wording@),
        r matches Some(span) ==> span.wf(),
{
    read_duration(find_duration_part(wording))
}

/// The patterns by which a time of day is read, in this order.
pub open spec fn time_patterns() -> Seq<Seq<char>> {
    seq!["%H:%M"@, "%H:%M:%S"@, "%I:%M%p"@, "%I:%M %p"@, "%I:%M:%S%p"@, "%I:%M:%S %p"@]
}

/// The time of day that the first pattern that fits gives.
pub open spec fn first_time(s: Seq<char>, patterns: Seq<Seq<char>>) -> Option<ClockTime>
    decreases patterns.len(),
{
    if patterns.len() == 0 {
        None
    } else {
        match calendar::clock_reading(s, patterns[0]) {
            Some(time) => Some(ClockTime { second: time.0 as u32, nanos: time.1 as u32 }),
            None => first_time(s, patterns.skip(1)),
        }
    }
}

/// The time of day that a text reads as.
pub open spec fn time_reading(s: Seq<char>) -> Option<ClockTime> {
    first_time(s, time_patterns())
}

/// Reads a time of day by the first pattern that fits.
pub fn parse_first_time(input: &str, patterns: &[&str]) -> (r: Option<ClockTime>)
    ensures
        r == first_time(input@, patterns@.map_values(|pattern: &str| pattern@)),
        r matches Some(time) ==> time.wf(),
{
    let ghost all = patterns@.map_values(|pattern: &str| pattern@);
    let mut i: usize = 0;
    assert(all.skip(0) =~= all);
    while i < patterns.len()
        invariant
            all == patterns@.map_values(|pattern: &str| pattern@),
            i <= patterns@.len(),
            first_time(input@, all) == first_time(input@, all.skip(i as int)),
        decreases patterns@.len() - i,
    {
        assert(all.skip(i as int)[0] == patterns@[i as int]@);
        assert(all.skip(i as int).skip(1) =~= all.skip(i + 1));
        match calendar::read_clock(input, patterns[i]) {
            Some(time) => {
                return Some(time);
            },
            None => {},
        }
        i = i + 1;
    }
    assert(all.skip(i as int).len() == 0);
    None
}

/// Reads a time of day.
pub fn parse_time_only(input: &str) -> (r: Option<ClockTime>)
    ensures
        r == time_reading(input@),
        r matches Some(time) ==> time.wf(),
{
    let patterns: [&str; 6] = [
        "%H:%M",
        "%H:%M:%S",
        "%I:%M%p",
        "%I:%M %p",
        "%I:%M:%S%p",
        "%I:%M:%S %p",
    ];
    assert(patterns@.map_values(|pattern: &str| pattern@) =~= time_patterns());
    parse_first_time(input, &patterns)
}

/// What stands in front of the first `separator` and what stands behind it, if there is something
/// on both sides.
pub open spec fn sides_of(s: Seq<char>, separator: char) -> Option<(Seq<char>, Seq<char>)> {
    let at = text::index_where(s, text::equal_to(separator));
    if at < s.len() {
        let (front, back) = (text::trimmed(s.take(at)), text::trimmed(s.skip(at + 1)));
        if front.len() > 0 && back.len() > 0 {
            Some((front, back))
        } else {
            None
        }
    } else {
        None
    }
}

/// The date and the time that a wording holds: they stand on both sides of a `T` or of a space.
pub open spec fn date_and_time(s: Seq<char>) -> Option<(Seq<char>, Seq<char>)> {
    match sides_of(s, 'T') {
        Some(sides) => Some(sides),
        None => sides_of(s, ' '),
    }
}

fn split_at<'a>(input: &'a str, separator: char) -> (r: Option<(&'a str, &'a str)>)
    ensures
        sides_of(input@, separator) == match r {
            Some(sides) => Some((sides.0@, sides.1@)),
            None => None,
        },
{
    let cs = text::characters(input);
    let mut at: usize = 0;
    while at < cs.len() && cs[at] != separator
        invariant
            cs@ == input@,
            at <= cs@.len(),
            forall|j: int| 0 <= j < at ==> !text::equal_to(separator)(#[trigger] input@[j]),
        decreases cs@.len() - at,
    {
        at = at + 1;
    }
    proof {
        text::lemma_index_where(input@, text::equal_to(separator), at as int);
    }
    if at == cs.len() {
        return None;
    }
    let before = input.substring_char(0, at);
    let after = input.substring_char(at + 1, cs.len());
    assert(before@ =~= input@.take(at as int));
    assert(after@ =~= input@.skip(at + 1));
    let front = text::trim(before);
    let back = text::trim(after);
    if front.is_empty() || back.is_empty() {
        return None;
    }
    Some((front, back))
}

/// Finds the date and the time that a wording holds.
pub fn split_absolute_datetime<'a>(input: &'a str) -> (r: Option<(&'a str, &'a str)>)
    ensures
        date_and_time(input@) == match r {
            Some(sides) => Some((sides.0@, sides.1@)),
            None => None,
        },
{
    match split_at(input, 'T') {
        Some(sides) => Some(sides),
        None => split_at(input, ' '),
    }
}

/// A duration reads the same with and without `in` in front of it.
pub proof fn law_in_is_optional(wording: Seq<char>)
    requires
        text::trimmed(wording) == wording,
        !"in "@.is_prefix_of(wording),
    ensures
        span_reading("in "@ + wording) == span_reading(wording),
{
    let longer = "in "@ + wording;
    assert("in "@ =~= longer.subrange(0, "in "@.len() as int));
    assert(longer.skip("in "@.len() as int) =~= wording);
}

/// A time of day is read by the first of the patterns that fits: hours and minutes, then with
/// seconds, on a clock of 24 hours and then on one of twelve, there without and with a space in
/// front of the half of the day.
pub proof fn law_times_are_read(s: Seq<char>, time: ClockTime)
    ensures
        ({
            let by = |pattern: Seq<char>| calendar::clock_reading(s, pattern);
            let found = Some((time.second as int, time.nanos as int));
            let (short, long) = (by("%H:%M"@), by("%H:%M:%S"@));
            let (short_half, short_spaced) = (by("%I:%M%p"@), by("%I:%M %p"@));
            let (long_half, long_spaced) = (by("%I:%M:%S%p"@), by("%I:%M:%S %p"@));
            &&& short == found ==> time_reading(s) == Some(time)
            &&& short is None && long == found ==> time_reading(s) == Some(time)
            &&& short is None && long is None && short_half == found ==> time_reading(s) == Some(
                time,
            )
            &&& short is None && long is None && short_half is None && short_spaced == found
                ==> time_reading(s) == Some(time)
            &&& short is None && long is None && short_half is None && short_spaced is None
                && long_half == found ==> time_reading(s) == Some(time)
            &&& short is None && long is None && short_half is None && short_spaced is None
                && long_half is None && long_spaced == found ==> time_reading(s) == Some(time)
            &&& short is None && long is None && short_half is None && short_spaced is None
                && long_half is None && long_spaced is None ==> time_reading(s) is None
        }),
{
    let patterns = time_patterns();
    assert(patterns.skip(1)[0] == patterns[1]);
    assert(patterns.skip(1).skip(1) =~= patterns.skip(2));
    assert(patterns.skip(2).skip(1) =~= patterns.skip(3));
    assert(patterns.skip(3).skip(1) =~= patterns.skip(4));
    assert(patterns.skip(4).skip(1) =~= patterns.skip(5));
    assert(patterns.skip(5).skip(1) =~= patterns.skip(6));
    assert(patterns.skip(2)[0] == patterns[2]);
    assert(patterns.skip(3)[0] == patterns[3]);
    assert(patterns.skip(4)[0] == patterns[4]);
    assert(patterns.skip(5)[0] == patterns[5]);
    assert(patterns.skip(6).len() == 0);
    reveal_with_fuel(first_time, 7);
}

/// A span is what a wording reads as whole, or what the text behind `in ` reads as.
pub proof fn law_spans_are_read(wording: Seq<char>, span: TimeSpan)
    ensures
        ({
            let found = Some((span.secs as int, span.nanos as int));
            let rest = text::trimmed(wording.skip(3));
            &&& !"in "@.is_prefix_of(wording) && duration_reading(wording) == found ==> span_reading(
                wording,
            ) == Some(span)
            &&& !"in "@.is_prefix_of(wording) && duration_reading(wording) is None ==> span_reading(
                wording,
            ) is None
            &&& "in "@.is_prefix_of(wording) && duration_reading(rest) == found ==> span_reading(
                wording,
            ) == Some(span)
            &&& "in "@.is_prefix_of(wording) && duration_reading(rest) is None ==> span_reading(
                wording,
            ) is None
        }),
{
    reveal_strlit("in ");
    assert("in "@.len() == 3);
}

/// A wording in its one form is its words with single spaces between them, letter by letter, but for
/// `am` and `pm` at its end, which are capital letters there.
pub proof fn law_one_form(input: Seq<char>)
    ensures
        ({
            let spaced = text::joined(text::words_of(input), " "@);
            let (form, n) = (normalized(input), spaced.len() as int);
            &&& form.len() == n
            &&& forall|i: int| 0 <= i < n - 2 ==> #[trigger] form[i] == spaced[i]
            &&& n < 2 ==> form == spaced
            &&& n >= 2 ==> {
                let (x, y) = (spaced[n - 2], spaced[n - 1]);
                if (x == 'a' || x == 'A') && (y == 'm' || y == 'M') {
                    form[n - 2] == 'A' && form[n - 1] == 'M'
                } else if (x == 'p' || x == 'P') && (y == 'm' || y == 'M') {
                    form[n - 2] == 'P' && form[n - 1] == 'M'
                } else {
                    form[n - 2] == x && form[n - 1] == y
                }
            }
        }),
{
    let spaced = text::joined(text::words_of(input), " "@);
    let n = spaced.len() as int;
    reveal_strlit("am");
    reveal_strlit("pm");
    if n >= 2 {
        let tail = spaced.skip(n - 2);
        let small = text::lowered(tail);
        assert(tail.len() == 2 && tail[0] == spaced[n - 2] && tail[1] == spaced[n - 1]);
        assert(small.len() == 2);
        assert("am"@ =~= seq!['a', 'm']);
        assert("pm"@ =~= seq!['p', 'm']);
        lemma_letter(tail[0]);
        lemma_letter(tail[1]);
        assert(small == "am"@ <==> small[0] == 'a' && small[1] == 'm') by {
            if small[0] == 'a' && small[1] == 'm' {
                assert(small =~= "am"@);
            }
        }
        assert(small == "pm"@ <==> small[0] == 'p' && small[1] == 'm') by {
            if small[0] == 'p' && small[1] == 'm' {
                assert(small =~= "pm"@);
            }
        }
    }
}

proof fn lemma_letter(ch: char)
    ensures
        text::lower_char(ch) == 'a' <==> ch == 'a' || ch == 'A',
        text::lower_char(ch) == 'p' <==> ch == 'p' || ch == 'P',
        text::lower_char(ch) == 'm' <==> ch == 'm' || ch == 'M',
        ch == 'a' || ch == 'A' ==> text::upper_char(ch) == 'A',
        ch == 'p' || ch == 'P' ==> text::upper_char(ch) == 'P',
        ch == 'm' || ch == 'M' ==> text::upper_char(ch) == 'M',
{
}

/// How much white space stands between the words of a wording, and of which kind, does not matter,
/// nor does white space around it.
pub proof fn law_spacing_does_not_matter(front: Seq<char>, one: char, other: char, back: Seq<char>)
    requires
        text::is_white_space(one),
        text::is_white_space(other),
    ensures
        normalized(front + seq![one] + back) == normalized(front + seq![other] + back),
        normalized(front + seq![one] + (seq![other] + back)) == normalized(
            front + seq![one] + back,
        ),
        normalized(seq![one] + back) == normalized(back),
        normalized(front + seq![one]) == normalized(front),
{
    let nothing = Seq::<char>::empty();
    text::law_one_word(nothing);
    text::law_words_of_two_sides(front, one, back);
    text::law_words_of_two_sides(front, other, back);
    text::law_words_of_two_sides(front, one, seq![other] + back);
    text::law_words_of_two_sides(nothing, other, back);
    text::law_words_of_two_sides(nothing, one, back);
    text::law_words_of_two_sides(front, one, nothing);
    assert(nothing + seq![other] + back =~= seq![other] + back);
    assert(nothing + seq![one] + back =~= seq![one] + back);
    assert(front + seq![one] + nothing =~= front + seq![one]);
    assert(text::words_of(front) + text::words_of(nothing) =~= text::words_of(front));
    assert(text::words_of(nothing) + text::words_of(back) =~= text::words_of(back));
}

/// Words with single spaces between them are their own form, unless they end in `am` or `pm`.
pub proof fn law_plain_wording(words: Seq<Seq<char>>)
    requires
        forall|i: int| 0 <= i < words.len() ==> (#[trigger] words[i]).len() > 0,
        forall|i: int, k: int|
            0 <= i < words.len() && 0 <= k < words[i].len() ==> !text::is_white_space(
                #[trigger] words[i][k],
            ),
        ({
            let spaced = text::joined(words, " "@);
            spaced.len() < 2 || (spaced.last() != 'm' && spaced.last() != 'M')
        }),
    ensures
        normalized(text::joined(words, " "@)) == text::joined(words, " "@),
{
    let spaced = text::joined(words, " "@);
    text::law_joined_words(words);
    law_one_form(spaced);
    assert(normalized(spaced) =~= spaced);
}

/// A date and a time with a `T` or a space between them are taken apart there: all of what stands
/// behind it belongs to the time.
pub proof fn law_date_and_time_are_parted(date: Seq<char>, time: Seq<char>)
    requires
        date.len() > 0,
        time.len() > 0,
        !date.contains('T'),
        !date.contains(' '),
        text::trimmed(date) == date,
        text::trimmed(time) == time,
    ensures
        date_and_time(date + seq!['T'] + time) == Some((date, time)),
        !time.contains('T') ==> date_and_time(date + seq![' '] + time) == Some((date, time)),
{
    lemma_parted_at(date, 'T', time);
    lemma_parted_at(date, ' ', time);
    let spaced = date + seq![' '] + time;
    if !time.contains('T') {
        let p = text::equal_to('T');
        assert forall|j: int| 0 <= j < spaced.len() implies !p(#[trigger] spaced[j]) by {
            if j < date.len() {
                assert(spaced[j] == date[j]);
            } else if j > date.len() {
                assert(spaced[j] == time[j - date.len() - 1]);
            }
        }
        text::lemma_index_where(spaced, p, spaced.len() as int);
    }
}

/// A wording without a `T` and without a space holds no date beside a time.
pub proof fn law_one_word_is_not_parted(s: Seq<char>)
    requires
        !s.contains('T'),
        !s.contains(' '),
    ensures
        date_and_time(s) is None,
{
    assert forall|j: int| 0 <= j < s.len() implies !text::equal_to('T')(#[trigger] s[j]) by {}
    assert forall|j: int| 0 <= j < s.len() implies !text::equal_to(' ')(#[trigger] s[j]) by {}
    text::lemma_index_where(s, text::equal_to('T'), s.len() as int);
    text::lemma_index_where(s, text::equal_to(' '), s.len() as int);
}

/// What stands in front of the first `T` and what stands behind it are taken apart, without the
/// white space around them, if there is something on both sides; and so it is with the first space
/// where there is no `T`.
pub proof fn law_first_separator_parts(front: Seq<char>, back: Seq<char>)
    ensures
        !front.contains('T') ==> {
            let whole = front + seq!['T'] + back;
            let (date, time) = (text::trimmed(front), text::trimmed(back));
            &&& date.len() > 0 && time.len() > 0 ==> date_and_time(whole) == Some((date, time))
            &&& (date.len() == 0 || time.len() == 0) && !whole.contains(' ') ==> date_and_time(
                whole,
            ) is None
        },
        !front.contains(' ') && !front.contains('T') && !back.contains('T') ==> {
            let whole = front + seq![' '] + back;
            let (date, time) = (text::trimmed(front), text::trimmed(back));
            date_and_time(whole) == if date.len() > 0 && time.len() > 0 {
                Some((date, time))
            } else {
                None
            }
        },
{
    if !front.contains('T') {
        let whole = front + seq!['T'] + back;
        lemma_parted_at(front, 'T', back);
        if !whole.contains(' ') {
            assert forall|j: int| 0 <= j < whole.len() implies !text::equal_to(' ')(
                #[trigger] whole[j],
            ) by {}
            text::lemma_index_where(whole, text::equal_to(' '), whole.len() as int);
        }
    }
    if !front.contains(' ') && !front.contains('T') && !back.contains('T') {
        let whole = front + seq![' '] + back;
        lemma_parted_at(front, ' ', back);
        assert forall|j: int| 0 <= j < whole.len() implies !text::equal_to('T')(
            #[trigger] whole[j],
        ) by {
            if j < front.len() {
                assert(whole[j] == front[j]);
            } else if j > front.len() {
                assert(whole[j] == back[j - front.len() - 1]);
            }
        }
        text::lemma_index_where(whole, text::equal_to('T'), whole.len() as int);
    }
}

proof fn lemma_parted_at(front: Seq<char>, separator: char, back: Seq<char>)
    requires
        !front.contains(separator),
    ensures
        ({
            let (date, time) = (text::trimmed(front), text::trimmed(back));
            sides_of(front + seq![separator] + back, separator) == if date.len() > 0 && time.len()
                > 0 {
                Some((date, time))
            } else {
                None
            }
        }),
{
    let whole = front + seq![separator] + back;
    let p = text::equal_to(separator);
    let at = front.len() as int;
    assert forall|j: int| 0 <= j < at implies !p(#[trigger] whole[j]) by {
        assert(whole[j] == front[j]);
    }
    assert(whole[at] == separator);
    text::lemma_index_where(whole, p, at);
    assert(whole.take(at) =~= front);
    assert(whole.skip(at + 1) =~= back);
}

} // verus!
