//! Dates written in numbers, and how their order of day, month and year is found.
use vstd::prelude::*;
use vstd::string::*;

use crate::calendar::{self, CalendarDate};
use crate::text;
use crate::types::{self, AppResult, DateOrder, DateParseConfig};

verus! {

/// The separator of a date: the first of slash, hyphen and dot that occurs in it.
pub open spec fn date_separator(s: Seq<char>) -> Option<char> {
    if s.contains('/') {
        Some('/')
    } else if s.contains('-') {
        Some('-')
    } else if s.contains('.') {
        Some('.')
    } else {
        None
    }
}

/// The three numbers of a date and the separator between them.
pub struct DateParts {
    pub separator: char,
    pub first: Seq<char>,
    pub second: Seq<char>,
    pub third: Seq<char>,
}

/// The numbers that `s` holds if it is a date.
pub open spec fn date_parts(s: Seq<char>) -> Option<DateParts> {
    match date_separator(s) {
        Some(separator) => {
            let parts = text::split_text(s, separator);
            if parts.len() == 3 && text::is_number(text::trimmed(parts[0])) && text::is_number(
                text::trimmed(parts[1]),
            ) && text::is_number(text::trimmed(parts[2])) {
                Some(
                    DateParts {
                        separator,
                        first: text::trimmed(parts[0]),
                        second: text::trimmed(parts[1]),
                        third: text::trimmed(parts[2]),
                    },
                )
            } else {
                None
            }
        },
        None => None,
    }
}

/// The three numbers of a date and the separator between them.
struct SplitDate {
    separator: char,
    first: String,
    second: String,
    third: String,
}

impl View for SplitDate {
    type V = DateParts;

    closed spec fn view(&self) -> DateParts {
        DateParts {
            separator: self.separator,
            first: self.first@,
            second: self.second@,
            third: self.third@,
        }
    }
}

fn find_separator(date_input: &str) -> (r: Option<char>)
    ensures
        r == date_separator(date_input@),
{
    if text::contains_char(date_input, '/') {
        Some('/')
    } else if text::contains_char(date_input, '-') {
        Some('-')
    } else if text::contains_char(date_input, '.') {
        Some('.')
    } else {
        None
    }
}

/// Splits a date into its numbers.
fn split_date_parts(date_input: &str) -> (r: Option<SplitDate>)
    ensures
        date_parts(date_input@) == match r {
            Some(parts) => Some(parts@),
            None => None,
        },
{
    let separator = match find_separator(date_input) {
        Some(separator) => separator,
        None => {
            return None;
        },
    };
    let parts = text::split(date_input, separator);
    assert(text::texts(parts@).len() == parts@.len());
    if parts.len() != 3 {
        return None;
    }
    let first = text::trim(parts[0].as_str());
    let second = text::trim(parts[1].as_str());
    let third = text::trim(parts[2].as_str());
    assert(text::texts(parts@)[0] == parts@[0]@);
    assert(text::texts(parts@)[1] == parts@[1]@);
    assert(text::texts(parts@)[2] == parts@[2]@);
    if !text::number(first) || !text::number(second) || !text::number(third) {
        return None;
    }
    Some(
        SplitDate {
            separator,
            first: first.to_string(),
            second: second.to_string(),
            third: third.to_string(),
        },
    )
}

/// A date and the order of its numbers by which it was read.
#[derive(Clone, Copy, Debug, PartialEq, Eq, Structural)]
pub struct DateCandidate {
    pub order: DateOrder,
    pub date: CalendarDate,
}

/// The date of a year, a month and a day, if the calendar has it.
pub open spec fn date_of(year: Seq<char>, month: Seq<char>, day: Seq<char>) -> Option<
    CalendarDate,
> {
    let (y, m, d) = (
        text::digits_value(year),
        text::digits_value(month),
        text::digits_value(day),
    );
    if calendar::date_exists(y, m, d) {
        Some(CalendarDate { year: y as i32, month: m as u32, day: d as u32 })
    } else {
        None
    }
}

/// The date that three numbers give when they are read in the given order.
pub open spec fn candidate(
    order: DateOrder,
    year: Seq<char>,
    month: Seq<char>,
    day: Seq<char>,
) -> Option<DateCandidate> {
    match date_of(year, month, day) {
        Some(date) => Some(DateCandidate { order, date }),
        None => None,
    }
}

/// Finds the date that three numbers give.
fn find_candidate(order: DateOrder, year: &str, month: &str, day: &str) -> (r: Option<
    DateCandidate,
>)
    requires
        text::is_number(year@),
        text::is_number(month@),
        text::is_number(day@),
    ensures
        r == candidate(order, year@, month@, day@),
        r matches Some(found) ==> found.date.wf(),
{
    proof {
        assert(text::is_digit(year@[0]) && text::is_digit(month@[0]) && text::is_digit(day@[0]));
    }
    let year = match text::parse_unsigned(year, 0x7fff_ffff) {
        Some(year) => year as i32,
        None => {
            return None;
        },
    };
    let month = match text::parse_unsigned(month, 0xffff_ffff) {
        Some(month) => month as u32,
        None => {
            return None;
        },
    };
    let day = match text::parse_unsigned(day, 0xffff_ffff) {
        Some(day) => day as u32,
        None => {
            return None;
        },
    };
    match calendar::date_from_parts(year, month, day) {
        Some(date) => Some(DateCandidate { order, date }),
        None => None,
    }
}

/// The candidates with one more, unless there is none or its date is among them.
pub open spec fn candidates_with(
    candidates: Seq<DateCandidate>,
    more: Option<DateCandidate>,
) -> Seq<DateCandidate> {
    match more {
        Some(found) => if exists|i: int|
            0 <= i < candidates.len() && #[trigger] candidates[i].date == found.date {
            candidates
        } else {
            candidates.push(found)
        },
        None => candidates,
    }
}

/// The dates that three numbers can mean: with a year of four digits in front, year, month and
/// day; with one at the end, day, month and year, and, unless dots separate them, month, day and
/// year.
pub open spec fn date_candidates(parts: DateParts) -> Seq<DateCandidate> {
    if parts.first.len() == 4 {
        candidates_with(
            Seq::empty(),
            candidate(DateOrder::Ymd, parts.first, parts.second, parts.third),
        )
    } else if parts.third.len() != 4 {
        Seq::empty()
    } else {
        let dmy = candidates_with(
            Seq::empty(),
            candidate(DateOrder::Dmy, parts.third, parts.second, parts.first),
        );
        if parts.separator != '.' {
            candidates_with(
                dmy,
                candidate(DateOrder::Mdy, parts.third, parts.first, parts.second),
            )
        } else {
            dmy
        }
    }
}

/// Adds a candidate, unless there is none or its date is among those there.
fn push_date_candidate(candidates: &mut Vec<DateCandidate>, more: Option<DateCandidate>)
    requires
        forall|k: int|
            0 <= k < old(candidates)@.len() ==> (#[trigger] old(candidates)@[k]).date.wf(),
        more matches Some(found) ==> found.date.wf(),
    ensures
        final(candidates)@ == candidates_with(old(candidates)@, more),
        forall|k: int|
            0 <= k < final(candidates)@.len() ==> (#[trigger] final(candidates)@[k]).date.wf(),
{
    match more {
        Some(found) => {
            let mut i: usize = 0;
            while i < candidates.len()
                invariant
                    i <= candidates@.len(),
                    candidates@ == old(candidates)@,
                    more == Some(found),
                    forall|k: int|
                        0 <= k < candidates@.len() ==> (#[trigger] candidates@[k]).date.wf(),
                    forall|j: int| 0 <= j < i ==> (#[trigger] candidates@[j]).date != found.date,
                decreases candidates@.len() - i,
            {
                if candidates[i].date == found.date {
                    assert(candidates@[i as int].date == found.date);
                    return ;
                }
                i = i + 1;
            }
            candidates.push(found);
        },
        None => {},
    }
}

/// Finds the dates that three numbers can mean.
fn find_candidates(parts: &SplitDate) -> (r: Vec<DateCandidate>)
    requires
        text::is_number(parts@.first),
        text::is_number(parts@.second),
        text::is_number(parts@.third),
    ensures
        r@ == date_candidates(parts@),
        forall|k: int| 0 <= k < r@.len() ==> (#[trigger] r@[k]).date.wf(),
{
    let mut candidates: Vec<DateCandidate> = Vec::new();
    let (first, second, third) = (
        parts.first.as_str(),
        parts.second.as_str(),
        parts.third.as_str(),
    );
    if first.unicode_len() == 4 {
        push_date_candidate(&mut candidates, find_candidate(DateOrder::Ymd, first, second, third));
        return candidates;
    }
    if third.unicode_len() != 4 {
        return candidates;
    }
    push_date_candidate(&mut candidates, find_candidate(DateOrder::Dmy, third, second, first));
    if parts.separator != '.' {
        push_date_candidate(&mut candidates, find_candidate(DateOrder::Mdy, third, first, second));
    }
    candidates
}

/// The predicate that the candidates of an order meet.
pub open spec fn has_order(order: DateOrder) -> spec_fn(DateCandidate) -> bool {
    |found: DateCandidate| found.order == order
}

/// The first date that was read in the given order.
pub open spec fn date_in_order(candidates: Seq<DateCandidate>, order: DateOrder) -> Option<
    CalendarDate,
> {
    let at = text::index_where(candidates, has_order(order));
    if at < candidates.len() {
        Some(candidates[at].date)
    } else {
        None
    }
}

fn find_in_order(candidates: &[DateCandidate], order: DateOrder) -> (r: Option<CalendarDate>)
    ensures
        r == date_in_order(candidates@, order),
        r matches Some(date) ==> exists|k: int|
            0 <= k < candidates@.len() && #[trigger] candidates@[k].date == date,
{
    let mut i: usize = 0;
    while i < candidates.len()
        invariant
            i <= candidates@.len(),
            forall|j: int| 0 <= j < i ==> !has_order(order)(#[trigger] candidates@[j]),
        decreases candidates@.len() - i,
    {
        if candidates[i].order == order {
            proof {
                text::lemma_index_where(candidates@, has_order(order), i as int);
            }
            return Some(candidates[i].date);
        }
        i = i + 1;
    }
    proof {
        text::lemma_index_where(candidates@, has_order(order), i as int);
    }
    None
}

/// The words for the orders of the candidates.
pub open spec fn order_words(candidates: Seq<DateCandidate>) -> Seq<Seq<char>> {
    candidates.map_values(|found: DateCandidate| types::date_order_word(found.order))
}

/// The refusal of a date that the settings do not decide.
pub open spec fn ambiguous_date(raw_date: Seq<char>, candidates: Seq<DateCandidate>) -> Seq<char> {
    "ambiguous date `"@ + raw_date + "`; valid interpretations match "@ + text::joined(
        order_words(candidates),
        "/"@,
    )
        + ". disable prefer_locale_date_order, adjust date_order, or use `YYYY-MM-DD`"@
}

/// The date that is meant: the only candidate, or the one in the order of the locale where that is
/// preferred, or the one in the order that is set.
pub open spec fn date_choice(
    raw_date: Seq<char>,
    candidates: Seq<DateCandidate>,
    date_config: DateParseConfig,
) -> Result<CalendarDate, Seq<char>> {
    if candidates.len() == 1 {
        Ok(candidates[0].date)
    } else {
        let by_locale = match date_config.locale_order {
            Some(order) => if date_config.prefer_locale_order {
                date_in_order(candidates, order)
            } else {
                None
            },
            None => None,
        };
        match by_locale {
            Some(date) => Ok(date),
            None => match date_in_order(candidates, date_config.fallback_order) {
                Some(date) => Ok(date),
                None => Err(ambiguous_date(raw_date, candidates)),
            },
        }
    }
}

fn refuse_ambiguous_date(raw_date: &str, candidates: &[DateCandidate]) -> (r: String)
    ensures
        r@ == ambiguous_date(raw_date@, candidates@),
{
    let mut words: Vec<String> = Vec::new();
    let mut i: usize = 0;
    while i < candidates.len()
        invariant
            i <= candidates@.len(),
            text::texts(words@) == order_words(candidates@.take(i as int)),
        decreases candidates@.len() - i,
    {
        let ghost before = text::texts(words@);
        let word = candidates[i].order.to_string();
        words.push(word);
        proof {
            assert(text::texts(words@) =~= before.push(word@));
            assert(order_words(candidates@.take(i + 1)) =~= before.push(
                types::date_order_word(candidates@[i as int].order),
            ));
        }
        i = i + 1;
    }
    assert(candidates@.take(i as int) =~= candidates@);
    let orders = text::join(words.as_slice(), "/");
    text::concat5(
        "ambiguous date `",
        raw_date,
        "`; valid interpretations match ",
        orders.as_str(),
        ". disable prefer_locale_date_order, adjust date_order, or use `YYYY-MM-DD`",
    )
}

/// Chooses the date that is meant.
pub fn resolve_date_candidate(
    raw_date: &str,
    candidates: &[DateCandidate],
    date_config: DateParseConfig,
) -> (r: AppResult<CalendarDate>)
    ensures
        types::outcome(r) == date_choice(raw_date@, candidates@, date_config),
        r matches Ok(date) ==> exists|k: int|
            0 <= k < candidates@.len() && #[trigger] candidates@[k].date == date,
{
    if candidates.len() == 1 {
        assert(candidates@[0].date == candidates@[0].date);
        return Ok(candidates[0].date);
    }
    if date_config.prefer_locale_order {
        if let Some(order) = date_config.locale_order {
            if let Some(date) = find_in_order(candidates, order) {
                return Ok(date);
            }
        }
    }
    match find_in_order(candidates, date_config.fallback_order) {
        Some(date) => Ok(date),
        None => Err(refuse_ambiguous_date(raw_date, candidates)),
    }
}

/// What a text reads as a date in numbers: nothing if it is none, and a refusal if the settings do
/// not decide which date it is.
pub open spec fn numeric_date(date_input: Seq<char>, date_config: DateParseConfig) -> Result<
    Option<CalendarDate>,
    Seq<char>,
> {
    match date_parts(date_input) {
        Some(parts) => if date_candidates(parts).len() == 0 {
            Ok(None)
        } else {
            match date_choice(date_input, date_candidates(parts), date_config) {
                Ok(date) => Ok(Some(date)),
                Err(refusal) => Err(refusal),
            }
        },
        None => Ok(None),
    }
}

/// Reads a date in numbers.
pub fn parse_numeric_date(date_input: &str, date_config: DateParseConfig) -> (r: AppResult<
    Option<CalendarDate>,
>)
    ensures
        types::outcome(r) == numeric_date(date_input@, date_config),
        r matches Ok(Some(date)) ==> date.wf(),
{
    match split_date_parts(date_input) {
        Some(parts) => {
            let candidates = find_candidates(&parts);
            if candidates.len() == 0 {
                return Ok(None);
            }
            match resolve_date_candidate(date_input, candidates.as_slice(), date_config) {
                Ok(date) => Ok(Some(date)),
                Err(refusal) => Err(refusal),
            }
        },
        None => Ok(None),
    }
}

/// A date with a year of four digits in front is read as year, month and day, whatever is set and
/// whatever separates the numbers.
pub proof fn law_year_first_dates(
    date_input: Seq<char>,
    parts: DateParts,
    date_config: DateParseConfig,
)
    requires
        date_parts(date_input) == Some(parts),
        parts.first.len() == 4,
    ensures
        numeric_date(date_input, date_config) == Ok::<Option<CalendarDate>, Seq<char>>(
            date_of(parts.first, parts.second, parts.third),
        ),
{
}

/// A date with dots and with a year of four digits at the end is read as day, month and year,
/// whatever is set.
pub proof fn law_dotted_dates(
    date_input: Seq<char>,
    parts: DateParts,
    date_config: DateParseConfig,
)
    requires
        date_parts(date_input) == Some(parts),
        parts.separator == '.',
        parts.first.len() != 4,
        parts.third.len() == 4,
    ensures
        numeric_date(date_input, date_config) == Ok::<Option<CalendarDate>, Seq<char>>(
            date_of(parts.third, parts.second, parts.first),
        ),
{
}

/// A date with slashes or hyphens and with a year of four digits at the end is read in the one
/// order of day and month in which the calendar has it, whatever is set, and is none if the
/// calendar has it in neither.
pub proof fn law_unambiguous_dates(
    date_input: Seq<char>,
    parts: DateParts,
    date_config: DateParseConfig,
)
    requires
        date_parts(date_input) == Some(parts),
        parts.separator != '.',
        parts.first.len() != 4,
        parts.third.len() == 4,
        ({
            let dmy = date_of(parts.third, parts.second, parts.first);
            let mdy = date_of(parts.third, parts.first, parts.second);
            dmy is None || mdy is None || dmy == mdy
        }),
    ensures
        numeric_date(date_input, date_config) == Ok::<Option<CalendarDate>, Seq<char>>(
            if date_of(parts.third, parts.second, parts.first) is Some {
                date_of(parts.third, parts.second, parts.first)
            } else {
                date_of(parts.third, parts.first, parts.second)
            },
        ),
{
    let dmy = candidate(DateOrder::Dmy, parts.third, parts.second, parts.first);
    let first = candidates_with(Seq::empty(), dmy);
    if dmy is Some {
        assert(first[0].date == dmy->0.date);
    }
}

/// The order in which a date that can be read in two ways is read: that of the locale if it is
/// preferred and has the day or the month in front, or else the one that is set.
pub open spec fn order_followed(date_config: DateParseConfig) -> DateOrder {
    match date_config.locale_order {
        Some(order) => if date_config.prefer_locale_order && order != DateOrder::Ymd {
            order
        } else {
            date_config.fallback_order
        },
        None => date_config.fallback_order,
    }
}

/// A date with slashes or hyphens that the calendar has in both orders of day and month is read in
/// the order that is followed, and refused if that has the year in front.
pub proof fn law_ambiguous_dates(
    date_input: Seq<char>,
    parts: DateParts,
    date_config: DateParseConfig,
)
    requires
        date_parts(date_input) == Some(parts),
        parts.separator != '.',
        parts.first.len() != 4,
        parts.third.len() == 4,
        ({
            let dmy = date_of(parts.third, parts.second, parts.first);
            let mdy = date_of(parts.third, parts.first, parts.second);
            dmy is Some && mdy is Some && dmy != mdy
        }),
    ensures
        match order_followed(date_config) {
            DateOrder::Dmy => numeric_date(date_input, date_config) == Ok::<
                Option<CalendarDate>,
                Seq<char>,
            >(date_of(parts.third, parts.second, parts.first)),
            DateOrder::Mdy => numeric_date(date_input, date_config) == Ok::<
                Option<CalendarDate>,
                Seq<char>,
            >(date_of(parts.third, parts.first, parts.second)),
            DateOrder::Ymd => numeric_date(date_input, date_config) is Err,
        },
{
    let dmy = candidate(DateOrder::Dmy, parts.third, parts.second, parts.first);
    let mdy = candidate(DateOrder::Mdy, parts.third, parts.first, parts.second);
    let first = candidates_with(Seq::empty(), dmy);
    let both = candidates_with(first, mdy);
    assert(both.len() == 2);
    assert(both[0] == dmy->0 && both[1] == mdy->0);
    text::lemma_index_where(both, has_order(DateOrder::Dmy), 0);
    text::lemma_index_where(both, has_order(DateOrder::Mdy), 1);
    text::lemma_index_where(both, has_order(DateOrder::Ymd), 2);
}

/// A date as `YYYY-MM-DD`.
pub open spec fn iso_text(date: CalendarDate) -> Seq<char> {
    let (y, m, d) = (date.year as int, date.month as int, date.day as int);
    seq![
        text::digit_char(y / 1000),
        text::digit_char(y / 100 % 10),
        text::digit_char(y / 10 % 10),
        text::digit_char(y % 10),
        '-',
        text::digit_char(m / 10),
        text::digit_char(m % 10),
        '-',
        text::digit_char(d / 10),
        text::digit_char(d % 10),
    ]
}

proof fn lemma_two_digit_number(n: int)
    requires
        0 <= n < 100,
    ensures
        text::is_number(seq![text::digit_char(n / 10), text::digit_char(n % 10)]),
        text::digits_value(seq![text::digit_char(n / 10), text::digit_char(n % 10)]) == n,
{
    let s = seq![text::digit_char(n / 10), text::digit_char(n % 10)];
    assert(s.drop_last() =~= seq![text::digit_char(n / 10)]);
    assert(s.drop_last().drop_last() =~= Seq::<char>::empty());
    reveal_with_fuel(text::digits_value, 3);
}

proof fn lemma_four_digit_number(n: int)
    requires
        0 <= n < 10_000,
    ensures
        ({
            let s = seq![
                text::digit_char(n / 1000),
                text::digit_char(n / 100 % 10),
                text::digit_char(n / 10 % 10),
                text::digit_char(n % 10),
            ];
            text::is_number(s) && text::digits_value(s) == n
        }),
{
    let s = seq![
        text::digit_char(n / 1000),
        text::digit_char(n / 100 % 10),
        text::digit_char(n / 10 % 10),
        text::digit_char(n % 10),
    ];
    let s3 = s.drop_last();
    let s2 = s3.drop_last();
    let s1 = s2.drop_last();
    assert(s1.drop_last() =~= Seq::<char>::empty());
    assert(s1.last() == text::digit_char(n / 1000));
    assert(s2.last() == text::digit_char(n / 100 % 10));
    assert(s3.last() == text::digit_char(n / 10 % 10));
    assert(text::digits_value(s1.drop_last()) == 0);
    assert(text::digits_value(s1) == n / 1000);
    assert(text::digits_value(s2) == n / 100);
    assert(text::digits_value(s3) == n / 10);
    assert(text::digits_value(s) == n);
}

/// A number has no white space around it.
proof fn lemma_number_is_trimmed(s: Seq<char>)
    requires
        text::is_number(s),
    ensures
        text::trimmed(s) == s,
{
    assert(text::is_digit(s[0]) && text::is_digit(s[s.len() - 1]));
}

/// A date of four digits for the year, two for the month and two for the day, in this order and with
/// hyphens, is read as that date, whatever is set.
pub proof fn law_iso_dates_are_read(date: CalendarDate, date_config: DateParseConfig)
    requires
        date.wf(),
        0 <= date.year <= 9999,
    ensures
        numeric_date(iso_text(date), date_config) == Ok::<Option<CalendarDate>, Seq<char>>(
            Some(date),
        ),
{
    let (y, m, d) = (date.year as int, date.month as int, date.day as int);
    let s = iso_text(date);
    let p = text::equal_to('-');
    let year = s.subrange(0, 4);
    let month = s.subrange(5, 7);
    let day = s.subrange(8, 10);
    lemma_four_digit_number(y);
    lemma_two_digit_number(m);
    lemma_two_digit_number(d);
    assert(year =~= seq![
        text::digit_char(y / 1000),
        text::digit_char(y / 100 % 10),
        text::digit_char(y / 10 % 10),
        text::digit_char(y % 10),
    ]);
    assert(month =~= seq![text::digit_char(m / 10), text::digit_char(m % 10)]);
    assert(day =~= seq![text::digit_char(d / 10), text::digit_char(d % 10)]);
    assert(s[4] == '-');
    assert forall|i: int| 0 <= i < s.len() implies s[i] != '/' by {}
    assert(date_separator(s) == Some('-'));
    text::lemma_pieces_step(s, p, 0, 4);
    text::lemma_pieces_step(s, p, 5, 7);
    text::lemma_pieces_last(s, p, 8);
    assert(s.skip(0) =~= s);
    let parts = text::split_text(s, '-');
    assert(parts =~= seq![year, month, day]);
    lemma_number_is_trimmed(year);
    lemma_number_is_trimmed(month);
    lemma_number_is_trimmed(day);
    let found = DateParts { separator: '-', first: year, second: month, third: day };
    assert(date_parts(s) == Some(found));
    law_year_first_dates(s, found, date_config);
}

/// A text with its white space left out.
pub open spec fn without_blanks(s: Seq<char>) -> Seq<char> {
    s.filter(|ch: char| !text::is_white_space(ch))
}

proof fn lemma_without_blanks_of_blanks(s: Seq<char>)
    requires
        forall|i: int| 0 <= i < s.len() ==> text::is_white_space(#[trigger] s[i]),
    ensures
        without_blanks(s) == Seq::<char>::empty(),
    decreases s.len(),
{
    reveal(Seq::filter);
    if s.len() > 0 {
        let front = s.drop_last();
        assert forall|i: int| 0 <= i < front.len() implies text::is_white_space(
            #[trigger] front[i],
        ) by {
            assert(front[i] == s[i]);
        }
        lemma_without_blanks_of_blanks(front);
        assert(text::is_white_space(s[s.len() - 1]));
    }
}

proof fn lemma_without_blanks_of_others(s: Seq<char>)
    requires
        forall|i: int| 0 <= i < s.len() ==> !text::is_white_space(#[trigger] s[i]),
    ensures
        without_blanks(s) == s,
    decreases s.len(),
{
    reveal(Seq::filter);
    if s.len() > 0 {
        let front = s.drop_last();
        assert forall|i: int| 0 <= i < front.len() implies !text::is_white_space(
            #[trigger] front[i],
        ) by {
            assert(front[i] == s[i]);
        }
        lemma_without_blanks_of_others(front);
        assert(!text::is_white_space(s[s.len() - 1]));
        assert(front.push(s.last()) =~= s);
    } else {
        assert(s =~= Seq::<char>::empty());
    }
}

proof fn lemma_without_blanks_of_number(s: Seq<char>)
    requires
        text::is_number(text::trimmed(s)),
    ensures
        without_blanks(s) == text::trimmed(s),
{
    let p = |ch: char| !text::is_white_space(ch);
    text::law_trimmed(s);
    let (from, to) = choose|from: int, to: int|
        {
            &&& 0 <= from <= to <= s.len()
            &&& text::trimmed(s) == #[trigger] s.subrange(from, to)
            &&& forall|i: int| 0 <= i < from ==> text::is_white_space(#[trigger] s[i])
            &&& forall|i: int| to <= i < s.len() ==> text::is_white_space(#[trigger] s[i])
        };
    let (front, number, back) = (s.take(from), s.subrange(from, to), s.skip(to));
    assert forall|i: int| 0 <= i < number.len() implies !text::is_white_space(
        #[trigger] number[i],
    ) by {
        assert(text::is_digit(number[i]));
    }
    assert forall|i: int| 0 <= i < back.len() implies text::is_white_space(#[trigger] back[i]) by {
        assert(back[i] == s[i + to]);
    }
    lemma_without_blanks_of_blanks(front);
    lemma_without_blanks_of_others(number);
    lemma_without_blanks_of_blanks(back);
    assert(s =~= front + (number + back));
    Seq::filter_distributes_over_add(front, number + back, p);
    Seq::filter_distributes_over_add(number, back, p);
    assert(Seq::<char>::empty() + (number + Seq::<char>::empty()) =~= number);
}

/// Three pieces with the separator between them make up the text.
proof fn lemma_three_pieces(s: Seq<char>, separator: char)
    requires
        text::split_text(s, separator).len() == 3,
    ensures
        ({
            let parts = text::split_text(s, separator);
            s == parts[0] + seq![separator] + parts[1] + seq![separator] + parts[2]
        }),
{
    let p = text::equal_to(separator);
    let parts = text::pieces(s, p);
    text::lemma_index_where_holds(s, p);
    let at = text::index_where(s, p);
    let rest = s.skip(at + 1);
    assert(parts =~= seq![s.take(at)] + text::pieces(rest, p));
    text::lemma_index_where_holds(rest, p);
    let then = text::index_where(rest, p);
    let last = rest.skip(then + 1);
    assert(text::pieces(rest, p) =~= seq![rest.take(then)] + text::pieces(last, p));
    text::lemma_index_where_holds(last, p);
    let end = text::index_where(last, p);
    if end < last.len() {
        assert(text::pieces(last, p).len() >= 1 + text::pieces(last.skip(end + 1), p).len());
        assert(text::pieces(last.skip(end + 1), p).len() >= 1);
    }
    assert(text::pieces(last, p) =~= seq![last]);
    assert(parts[0] == s.take(at) && parts[1] == rest.take(then) && parts[2] == last);
    assert(s =~= s.take(at) + seq![separator] + rest);
    assert(rest =~= rest.take(then) + seq![separator] + last);
    assert(s =~= parts[0] + seq![separator] + parts[1] + seq![separator] + parts[2]);
}

/// The three numbers of a date, in the order in which they were found and with the separator between
/// them, are the text without its white space.
pub proof fn law_date_parts_make_up_the_text(s: Seq<char>)
    ensures
        date_parts(s) matches Some(parts) ==> without_blanks(s) == parts.first + seq![
            parts.separator,
        ] + parts.second + seq![parts.separator] + parts.third,
{
    if date_parts(s) is Some {
        let parts = date_parts(s)->0;
        let pieces = text::split_text(s, parts.separator);
        let p = |ch: char| !text::is_white_space(ch);
        let mark = seq![parts.separator];
        lemma_three_pieces(s, parts.separator);
        lemma_without_blanks_of_number(pieces[0]);
        lemma_without_blanks_of_number(pieces[1]);
        lemma_without_blanks_of_number(pieces[2]);
        lemma_without_blanks_of_others(mark);
        Seq::filter_distributes_over_add(pieces[0] + mark + pieces[1] + mark, pieces[2], p);
        Seq::filter_distributes_over_add(pieces[0] + mark + pieces[1], mark, p);
        Seq::filter_distributes_over_add(pieces[0] + mark, pieces[1], p);
        Seq::filter_distributes_over_add(pieces[0], mark, p);
    }
}

/// Whether a text holds ASCII digits, at least one, and nothing else.
pub open spec fn digits_alone(s: Seq<char>) -> bool {
    s.len() > 0 && forall|i: int| 0 <= i < s.len() ==> '0' <= #[trigger] s[i] <= '9'
}

/// Three texts with a separator between them.
pub open spec fn separated(
    first: Seq<char>,
    second: Seq<char>,
    third: Seq<char>,
    separator: char,
) -> Seq<char> {
    first + seq![separator] + second + seq![separator] + third
}

/// Three numbers with slashes, hyphens or dots between them, and with white space around them or
/// not, are found in the order in which they are written.
pub proof fn law_date_is_split(a: Seq<char>, b: Seq<char>, c: Seq<char>, separator: char)
    requires
        separator == '/' || separator == '-' || separator == '.',
        digits_alone(text::trimmed(a)),
        digits_alone(text::trimmed(b)),
        digits_alone(text::trimmed(c)),
    ensures
        date_parts(separated(a, b, c, separator)) == Some(
            DateParts {
                separator,
                first: text::trimmed(a),
                second: text::trimmed(b),
                third: text::trimmed(c),
            },
        ),
{
    let s = separated(a, b, c, separator);
    let p = text::equal_to(separator);
    lemma_number_holds_no_separator(a);
    lemma_number_holds_no_separator(b);
    lemma_number_holds_no_separator(c);
    text::law_one_piece(a, p);
    text::law_one_piece(b, p);
    text::law_one_piece(c, p);
    text::law_pieces_of_two_sides(a, separator, b, p);
    text::law_pieces_of_two_sides(a + seq![separator] + b, separator, c, p);
    assert(text::pieces(s, p) =~= seq![a, b, c]);
    assert forall|i: int| 0 <= i < s.len() implies s[i] == separator || (s[i] != '/' && s[i] != '-'
        && s[i] != '.') by {
        if i < a.len() {
            assert(s[i] == a[i]);
        } else if a.len() < i < a.len() + 1 + b.len() {
            assert(s[i] == b[i - a.len() - 1]);
        } else if i > a.len() + 1 + b.len() {
            assert(s[i] == c[i - a.len() - b.len() - 2]);
        }
    }
    assert(s[a.len() as int] == separator);
    assert(date_separator(s) == Some(separator));
}

proof fn lemma_number_holds_no_separator(s: Seq<char>)
    requires
        digits_alone(text::trimmed(s)),
    ensures
        text::is_number(text::trimmed(s)),
        forall|i: int| 0 <= i < s.len() ==> #[trigger] s[i] != '/' && s[i] != '-' && s[i] != '.',
{
    text::law_trimmed(s);
    let (from, to) = choose|from: int, to: int|
        {
            &&& 0 <= from <= to <= s.len()
            &&& text::trimmed(s) == #[trigger] s.subrange(from, to)
            &&& forall|i: int| 0 <= i < from ==> text::is_white_space(#[trigger] s[i])
            &&& forall|i: int| to <= i < s.len() ==> text::is_white_space(#[trigger] s[i])
        };
    assert forall|i: int| 0 <= i < s.len() implies #[trigger] s[i] != '/' && s[i] != '-' && s[i]
        != '.' by {
        if from <= i < to {
            assert(text::trimmed(s)[i - from] == s[i]);
        }
    }
}

/// A day as three digit texts give it, if the calendar has it.
pub open spec fn day_of(year: Seq<char>, month: Seq<char>, day: Seq<char>) -> Option<CalendarDate> {
    let (y, m, d) = (
        text::digits_value(year),
        text::digits_value(month),
        text::digits_value(day),
    );
    if calendar::date_exists(y, m, d) {
        Some(CalendarDate { year: y as i32, month: m as u32, day: d as u32 })
    } else {
        None
    }
}

/// What three numbers with a separator between them are read as. With a year of four digits in front
/// they are year, month and day. With one at the end and with dots they are day, month and year.
/// With one at the end and with slashes or hyphens they are read in the order that is followed, if
/// the calendar has the day in that order, and otherwise in the one of the two orders in which it
/// has it; a day that it has in both is refused if neither is followed. Without a year of four
/// digits they are no date.
pub proof fn law_numbers_are_read_as_dates(
    first: Seq<char>,
    second: Seq<char>,
    third: Seq<char>,
    separator: char,
    date_config: DateParseConfig,
)
    requires
        separator == '/' || separator == '-' || separator == '.',
        digits_alone(first),
        digits_alone(second),
        digits_alone(third),
    ensures
        ({
            let answer = numeric_date(separated(first, second, third, separator), date_config);
            let dmy = day_of(third, second, first);
            let mdy = day_of(third, first, second);
            let order = order_followed(date_config);
            if first.len() == 4 {
                answer == Ok::<Option<CalendarDate>, Seq<char>>(day_of(first, second, third))
            } else if third.len() != 4 {
                answer == Ok::<Option<CalendarDate>, Seq<char>>(None)
            } else if separator == '.' {
                answer == Ok::<Option<CalendarDate>, Seq<char>>(dmy)
            } else if dmy is Some && (order == DateOrder::Dmy || mdy is None || mdy == dmy) {
                answer == Ok::<Option<CalendarDate>, Seq<char>>(dmy)
            } else if mdy is Some && (order == DateOrder::Mdy || dmy is None) {
                answer == Ok::<Option<CalendarDate>, Seq<char>>(mdy)
            } else if dmy is None && mdy is None {
                answer == Ok::<Option<CalendarDate>, Seq<char>>(None)
            } else {
                answer is Err
            }
        }),
{
    let s = separated(first, second, third, separator);
    lemma_digits_are_trimmed(first);
    lemma_digits_are_trimmed(second);
    lemma_digits_are_trimmed(third);
    law_date_is_split(first, second, third, separator);
    let parts = DateParts { separator, first, second, third };
    assert(date_parts(s) == Some(parts));
    let dmy = day_of(third, second, first);
    let mdy = day_of(third, first, second);
    if first.len() == 4 {
        law_year_first_dates(s, parts, date_config);
    } else if third.len() == 4 && separator == '.' {
        law_dotted_dates(s, parts, date_config);
    } else if third.len() == 4 && (dmy is None || mdy is None || dmy == mdy) {
        law_unambiguous_dates(s, parts, date_config);
    } else if third.len() == 4 {
        law_ambiguous_dates(s, parts, date_config);
    }
}

proof fn lemma_digits_are_trimmed(s: Seq<char>)
    requires
        digits_alone(s),
    ensures
        text::trimmed(s) == s,
{
    assert(text::is_number(s)) by {
        assert forall|i: int| 0 <= i < s.len() implies text::is_digit(#[trigger] s[i]) by {}
    }
    lemma_number_is_trimmed(s);
}

/// The two digits of a day or of a month.
pub open spec fn in_two_digits(n: int) -> Seq<char> {
    seq![('0' as int + n / 10) as char, ('0' as int + n % 10) as char]
}

/// The four digits of a year.
pub open spec fn in_four_digits(n: int) -> Seq<char> {
    seq![
        ('0' as int + n / 1000) as char,
        ('0' as int + n / 100 % 10) as char,
        ('0' as int + n / 10 % 10) as char,
        ('0' as int + n % 10) as char,
    ]
}

/// A day that is written in numbers is read as that day: as day, month and year where that order is
/// followed, with dots, or where the day is none of a month; as month, day and year where that
/// order is followed or where the day is none of a month; and as year, month and day always.
pub proof fn law_written_dates_are_read(
    date: CalendarDate,
    separator: char,
    date_config: DateParseConfig,
)
    requires
        date.wf(),
        0 <= date.year <= 9999,
        separator == '/' || separator == '-' || separator == '.',
    ensures
        ({
            let (y, m, d) = (
                in_four_digits(date.year as int),
                in_two_digits(date.month as int),
                in_two_digits(date.day as int),
            );
            let order = order_followed(date_config);
            let read = Ok::<Option<CalendarDate>, Seq<char>>(Some(date));
            &&& numeric_date(separated(y, m, d, separator), date_config) == read
            &&& order == DateOrder::Dmy || separator == '.' || date.day > 12 ==> numeric_date(
                separated(d, m, y, separator),
                date_config,
            ) == read
            &&& separator != '.' && (order == DateOrder::Mdy || date.day > 12) ==> numeric_date(
                separated(m, d, y, separator),
                date_config,
            ) == read
        }),
{
    let (year, month, day) = (date.year as int, date.month as int, date.day as int);
    let (y, m, d) = (in_four_digits(year), in_two_digits(month), in_two_digits(day));
    lemma_four_digit_number(year);
    lemma_two_digit_number(month);
    lemma_two_digit_number(day);
    assert(y =~= seq![
        text::digit_char(year / 1000),
        text::digit_char(year / 100 % 10),
        text::digit_char(year / 10 % 10),
        text::digit_char(year % 10),
    ]);
    assert(m =~= seq![text::digit_char(month / 10), text::digit_char(month % 10)]);
    assert(d =~= seq![text::digit_char(day / 10), text::digit_char(day % 10)]);
    lemma_number_is_digits(y);
    lemma_number_is_digits(m);
    lemma_number_is_digits(d);
    law_numbers_are_read_as_dates(y, m, d, separator, date_config);
    law_numbers_are_read_as_dates(d, m, y, separator, date_config);
    law_numbers_are_read_as_dates(m, d, y, separator, date_config);
}

proof fn lemma_number_is_digits(s: Seq<char>)
    requires
        text::is_number(s),
    ensures
        digits_alone(s),
{
    assert forall|i: int| 0 <= i < s.len() implies '0' <= #[trigger] s[i] <= '9' by {
        assert(text::is_digit(s[i]));
    }
}

/// A text that is a date, or whose order of day and month is not decided, holds three numbers.
pub proof fn law_dates_hold_three_numbers(s: Seq<char>, date_config: DateParseConfig)
    ensures
        numeric_date(s, date_config) != Ok::<Option<CalendarDate>, Seq<char>>(None) ==> exists|
            first: Seq<char>,
            second: Seq<char>,
            third: Seq<char>,
            separator: char,
        |
            {
                &&& without_blanks(s) == #[trigger] separated(first, second, third, separator)
                &&& digits_alone(first) && digits_alone(second) && digits_alone(third)
                &&& separator == '/' || separator == '-' || separator == '.'
            },
{
    law_date_parts_make_up_the_text(s);
    if date_parts(s) is Some {
        let parts = date_parts(s)->0;
        lemma_number_is_digits(parts.first);
        lemma_number_is_digits(parts.second);
        lemma_number_is_digits(parts.third);
        assert(without_blanks(s) == separated(
            parts.first,
            parts.second,
            parts.third,
            parts.separator,
        ));
    }
}

/// A single candidate is the date that is meant. Of several it is the first one in the order of the
/// locale, where that is preferred and there is one, or else the first one in the order that is set,
/// and without such a one there is none.
pub proof fn law_candidate_is_chosen(
    raw_date: Seq<char>,
    candidates: Seq<DateCandidate>,
    date_config: DateParseConfig,
    at: int,
)
    requires
        0 <= at < candidates.len(),
        forall|j: int| 0 <= j < at ==> (#[trigger] candidates[j]).order != candidates[at].order,
    ensures
        candidates.len() == 1 ==> date_choice(raw_date, candidates, date_config) == Ok::<
            CalendarDate,
            Seq<char>,
        >(candidates[0].date),
        candidates.len() > 1 && date_config.prefer_locale_order && date_config.locale_order == Some(
            candidates[at].order,
        ) ==> date_choice(raw_date, candidates, date_config) == Ok::<CalendarDate, Seq<char>>(
            candidates[at].date,
        ),
        candidates.len() > 1 && candidates[at].order == date_config.fallback_order && (
        !date_config.prefer_locale_order || date_config.locale_order is None || forall|j: int|
            0 <= j < candidates.len() ==> Some((#[trigger] candidates[j]).order)
                != date_config.locale_order) ==> date_choice(raw_date, candidates, date_config)
            == Ok::<CalendarDate, Seq<char>>(candidates[at].date),
{
    let order = candidates[at].order;
    assert forall|j: int| 0 <= j < at implies !has_order(order)(#[trigger] candidates[j]) by {}
    text::lemma_index_where(candidates, has_order(order), at);
    if date_config.locale_order is Some {
        text::lemma_index_where_holds(candidates, has_order(date_config.locale_order->0));
    }
}

/// Several candidates of which none has the order of the locale, where that is preferred, and none
/// the order that is set, are refused.
pub proof fn law_undecided_date_is_refused(
    raw_date: Seq<char>,
    candidates: Seq<DateCandidate>,
    date_config: DateParseConfig,
)
    requires
        candidates.len() != 1,
        forall|j: int|
            0 <= j < candidates.len() ==> (#[trigger] candidates[j]).order
                != date_config.fallback_order,
        date_config.prefer_locale_order ==> forall|j: int|
            0 <= j < candidates.len() ==> Some((#[trigger] candidates[j]).order)
                != date_config.locale_order,
    ensures
        date_choice(raw_date, candidates, date_config) is Err,
{
    text::lemma_index_where_holds(candidates, has_order(date_config.fallback_order));
    if date_config.locale_order is Some {
        text::lemma_index_where_holds(candidates, has_order(date_config.locale_order->0));
    }
}

/// White space around the numbers of a date does not change the date.
pub proof fn law_white_space_in_dates(
    a: Seq<char>,
    b: Seq<char>,
    c: Seq<char>,
    separator: char,
    date_config: DateParseConfig,
)
    requires
        separator == '/' || separator == '-' || separator == '.',
        digits_alone(text::trimmed(a)),
        digits_alone(text::trimmed(b)),
        digits_alone(text::trimmed(c)),
    ensures
        ({
            let spaced = numeric_date(separated(a, b, c, separator), date_config);
            let plain = numeric_date(
                separated(text::trimmed(a), text::trimmed(b), text::trimmed(c), separator),
                date_config,
            );
            spaced == plain || (spaced is Err && plain is Err)
        }),
{
    law_date_is_split(a, b, c, separator);
    lemma_digits_are_trimmed(text::trimmed(a));
    lemma_digits_are_trimmed(text::trimmed(b));
    lemma_digits_are_trimmed(text::trimmed(c));
    law_date_is_split(text::trimmed(a), text::trimmed(b), text::trimmed(c), separator);
}

/// The refusal of a date that is not decided shows the date and the orders in which it can be read.
pub proof fn law_undecided_date_is_shown(raw_date: Seq<char>, candidates: Seq<DateCandidate>)
    ensures
        ambiguous_date(raw_date, candidates) == "ambiguous date `"@ + raw_date
            + "`; valid interpretations match "@ + text::joined(
            Seq::new(
                candidates.len(),
                |i: int| types::date_order_word(candidates[i].order),
            ),
            "/"@,
        )
            + ". disable prefer_locale_date_order, adjust date_order, or use `YYYY-MM-DD`"@,
{
    assert(order_words(candidates) =~= Seq::new(
        candidates.len(),
        |i: int| types::date_order_word(candidates[i].order),
    ));
}

} // verus!
