//! The background alarms that are under way: their records, where these are kept, how one of them
//! is selected, and how the program is called to run one.
use vstd::prelude::*;
use vstd::string::*;

use crate::calendar::{self, UtcTime};
use crate::config;
use crate::parse;
use crate::paths;
use crate::text;
use crate::types::{
    self, ActiveAlarmState, AlarmAudioConfig, AlarmNotificationConfig, AlarmStateView, AppResult,
    ArgumentView, CommandView, Volume,
};

verus! {

/// The views of a list of records.
pub open spec fn records(list: Seq<ActiveAlarmState>) -> Seq<AlarmStateView> {
    list.map_values(|item: ActiveAlarmState| item@)
}

/// A copy of an optional text.
fn copy_text(text: &Option<String>) -> (r: Option<String>)
    ensures
        text::optional_text(r) == text::optional_text(*text),
{
    match text {
        Some(value) => Some(value.clone()),
        None => None,
    }
}

/// A copy of a record.
pub fn copy_state(state: &ActiveAlarmState) -> (r: ActiveAlarmState)
    ensures
        r@ == state@,
{
    ActiveAlarmState {
        id: state.id.clone(),
        pid: state.pid,
        spec_text: state.spec_text.clone(),
        target_utc: state.target_utc.clone(),
        created_at_utc: state.created_at_utc.clone(),
        auto_stop_seconds: state.auto_stop_seconds,
        volume: state.volume,
        sound_file: copy_text(&state.sound_file),
    }
}

/// Whether one record comes before another: by its target, and then by its identifier.
pub open spec fn state_before(a: AlarmStateView, b: AlarmStateView) -> bool {
    text::text_before(a.target_utc, b.target_utc) || (a.target_utc == b.target_utc
        && text::text_before(a.id, b.id))
}

fn comes_before(left: &ActiveAlarmState, right: &ActiveAlarmState) -> (r: bool)
    ensures
        r == state_before(left@, right@),
{
    let (a, b) = (left.target_utc.as_str(), right.target_utc.as_str());
    text::comes_before(a, b) || (text::same_text(a, b) && text::comes_before(
        left.id.as_str(),
        right.id.as_str(),
    ))
}

/// The record in front of the first one in the list that does not come before it.
pub open spec fn inserted(state: AlarmStateView, list: Seq<AlarmStateView>) -> Seq<AlarmStateView>
    decreases list.len(),
{
    if list.len() > 0 && state_before(list[0], state) {
        seq![list[0]] + inserted(state, list.skip(1))
    } else {
        seq![state] + list
    }
}

/// The records in order; those of which neither comes before the other stay as they were.
pub open spec fn sorted(list: Seq<AlarmStateView>) -> Seq<AlarmStateView>
    decreases list.len(),
{
    if list.len() == 0 {
        list
    } else {
        inserted(list[0], sorted(list.skip(1)))
    }
}

proof fn lemma_inserted(state: AlarmStateView, list: Seq<AlarmStateView>, at: int)
    requires
        0 <= at <= list.len(),
        forall|j: int| 0 <= j < at ==> state_before(#[trigger] list[j], state),
        at < list.len() ==> !state_before(list[at], state),
    ensures
        inserted(state, list) == list.insert(at, state),
    decreases at,
{
    if at == 0 {
        assert(seq![state] + list =~= list.insert(0, state));
    } else {
        let rest = list.skip(1);
        assert forall|j: int| 0 <= j < at - 1 implies state_before(#[trigger] rest[j], state) by {
            assert(rest[j] == list[j + 1]);
        }
        lemma_inserted(state, rest, at - 1);
        assert(state_before(list[0], state));
        assert(seq![list[0]] + rest.insert(at - 1, state) =~= list.insert(at, state));
    }
}

/// Brings records into order.
pub fn sort_states(states: Vec<ActiveAlarmState>) -> (r: Vec<ActiveAlarmState>)
    ensures
        records(r@) == sorted(records(states@)),
{
    let ghost all = records(states@);
    let mut rest = states;
    let mut out: Vec<ActiveAlarmState> = Vec::new();
    proof {
        assert(all.skip(all.len() as int).len() == 0);
        assert(records(out@) =~= sorted(all.skip(all.len() as int)));
        assert(all.take(all.len() as int) =~= all);
    }
    while rest.len() > 0
        invariant
            rest@.len() <= all.len(),
            records(rest@) == all.take(rest@.len() as int),
            records(out@) == sorted(all.skip(rest@.len() as int)),
        decreases rest@.len(),
    {
        let ghost count = rest@.len() as int;
        let ghost before = records(out@);
        let state = rest.pop().unwrap();
        proof {
            assert(records(rest@) =~= all.take(count - 1));
            assert(state@ == all.take(count)[count - 1]);
            assert(all.skip(count - 1)[0] == state@);
            assert(all.skip(count - 1).skip(1) =~= all.skip(count));
        }
        let mut at: usize = 0;
        while at < out.len() && comes_before(&out[at], &state)
            invariant
                before == records(out@),
                at <= out@.len(),
                forall|j: int| 0 <= j < at ==> state_before(#[trigger] before[j], state@),
            decreases out@.len() - at,
        {
            assert(before[at as int] == out@[at as int]@);
            at = at + 1;
        }
        proof {
            if at < out@.len() {
                assert(before[at as int] == out@[at as int]@);
            }
            lemma_inserted(state@, before, at as int);
        }
        let ghost added = state@;
        out.insert(at, state);
        assert(records(out@) =~= before.insert(at as int, added));
    }
    assert(all.skip(0) =~= all);
    out
}

/// Whether no record of a list comes before an earlier one.
pub open spec fn in_order(list: Seq<AlarmStateView>) -> bool {
    forall|i: int, j: int|
        0 <= i < j < list.len() ==> !state_before(#[trigger] list[j], #[trigger] list[i])
}

proof fn lemma_state_order(a: AlarmStateView, b: AlarmStateView, c: AlarmStateView)
    ensures
        !state_before(a, a),
        !(state_before(a, b) && state_before(b, a)),
        state_before(a, b) && state_before(b, c) ==> state_before(a, c),
        !state_before(b, a) && !state_before(c, b) ==> !state_before(c, a),
{
    text::lemma_text_before_irreflexive(a.target_utc);
    text::lemma_text_before_irreflexive(a.id);
    text::lemma_text_before_total(a.target_utc, b.target_utc);
    text::lemma_text_before_total(b.target_utc, c.target_utc);
    text::lemma_text_before_total(a.target_utc, c.target_utc);
    text::lemma_text_before_total(a.id, b.id);
    text::lemma_text_before_total(b.id, c.id);
    text::lemma_text_before_total(a.id, c.id);
    if text::text_before(a.target_utc, b.target_utc) && text::text_before(
        b.target_utc,
        c.target_utc,
    ) {
        text::lemma_text_before_transitive(a.target_utc, b.target_utc, c.target_utc);
    }
    if text::text_before(a.id, b.id) && text::text_before(b.id, c.id) {
        text::lemma_text_before_transitive(a.id, b.id, c.id);
    }
}

proof fn lemma_inserted_in_order(state: AlarmStateView, list: Seq<AlarmStateView>)
    requires
        in_order(list),
    ensures
        in_order(inserted(state, list)),
        inserted(state, list).len() == list.len() + 1,
        forall|i: int|
            0 <= i < list.len() + 1 ==> (#[trigger] inserted(state, list)[i]) == state
                || list.contains(inserted(state, list)[i]),
    decreases list.len(),
{
    let result = inserted(state, list);
    if list.len() > 0 && state_before(list[0], state) {
        let rest = list.skip(1);
        assert forall|i: int, j: int| 0 <= i < j < rest.len() implies !state_before(
            #[trigger] rest[j],
            #[trigger] rest[i],
        ) by {
            assert(rest[i] == list[i + 1] && rest[j] == list[j + 1]);
        }
        lemma_inserted_in_order(state, rest);
        let tail = inserted(state, rest);
        assert forall|i: int| 0 <= i < result.len() implies (#[trigger] result[i]) == state
            || list.contains(result[i]) by {
            if i > 0 {
                assert(result[i] == tail[i - 1]);
                if tail[i - 1] != state {
                    let k = choose|k: int| 0 <= k < rest.len() && rest[k] == tail[i - 1];
                    assert(list[k + 1] == result[i]);
                }
            } else {
                assert(list[0] == result[0]);
            }
        }
        assert forall|i: int, j: int| 0 <= i < j < result.len() implies !state_before(
            #[trigger] result[j],
            #[trigger] result[i],
        ) by {
            assert(result[j] == tail[j - 1]);
            if i > 0 {
                assert(result[i] == tail[i - 1]);
            } else if tail[j - 1] == state {
                lemma_state_order(list[0], state, state);
            } else {
                let k = choose|k: int| 0 <= k < rest.len() && rest[k] == tail[j - 1];
                assert(list[k + 1] == result[j]);
                assert(!state_before(list[k + 1], list[0]));
            }
        }
    } else {
        assert forall|i: int| 0 <= i < result.len() implies (#[trigger] result[i]) == state
            || list.contains(result[i]) by {
            if i > 0 {
                assert(result[i] == list[i - 1]);
            }
        }
        assert forall|i: int, j: int| 0 <= i < j < result.len() implies !state_before(
            #[trigger] result[j],
            #[trigger] result[i],
        ) by {
            assert(result[j] == list[j - 1]);
            if i > 0 {
                assert(result[i] == list[i - 1]);
            } else {
                if j > 1 {
                    assert(!state_before(list[j - 1], list[0]));
                }
                lemma_state_order(state, list[0], list[j - 1]);
            }
        }
    }
}

/// Sorted records are in order.
pub proof fn law_sorted_is_in_order(list: Seq<AlarmStateView>)
    ensures
        in_order(sorted(list)),
        sorted(list).len() == list.len(),
    decreases list.len(),
{
    if list.len() > 0 {
        law_sorted_is_in_order(list.skip(1));
        lemma_inserted_in_order(list[0], sorted(list.skip(1)));
    }
}

/// The predicate that records with the same place in the order as `state` meet.
pub open spec fn tied_with(state: AlarmStateView) -> spec_fn(AlarmStateView) -> bool {
    |other: AlarmStateView| other.target_utc == state.target_utc && other.id == state.id
}

proof fn lemma_inserted_ties(state: AlarmStateView, list: Seq<AlarmStateView>, key: AlarmStateView)
    ensures
        inserted(state, list).to_multiset() == list.to_multiset().insert(state),
        inserted(state, list).filter(tied_with(key)) == (seq![state] + list).filter(tied_with(key)),
    decreases list.len(),
{
    broadcast use vstd::seq_lib::group_to_multiset_ensures;

    if list.len() > 0 && state_before(list[0], state) {
        let rest = list.skip(1);
        lemma_inserted_ties(state, rest, key);
        let tail = inserted(state, rest);
        assert(list =~= seq![list[0]] + rest);
        vstd::seq_lib::lemma_multiset_commutative(seq![list[0]], tail);
        vstd::seq_lib::lemma_multiset_commutative(seq![list[0]], rest);
        assert(seq![list[0]] =~= Seq::<AlarmStateView>::empty().push(list[0]));
        assert(inserted(state, list).to_multiset() =~= list.to_multiset().insert(state));
        text::lemma_filter_first(list[0], tail, tied_with(key));
        text::lemma_filter_first(list[0], rest, tied_with(key));
        text::lemma_filter_first(state, rest, tied_with(key));
        text::lemma_filter_first(state, list, tied_with(key));
        lemma_state_order(state, list[0], state);
        text::lemma_text_before_irreflexive(key.target_utc);
        text::lemma_text_before_irreflexive(key.id);
        assert(!(tied_with(key)(list[0]) && tied_with(key)(state)));
    } else {
        vstd::seq_lib::lemma_multiset_commutative(seq![state], list);
        assert(seq![state] =~= Seq::<AlarmStateView>::empty().push(state));
        assert(inserted(state, list).to_multiset() =~= list.to_multiset().insert(state));
    }
}

/// Sorting keeps every record, and keeps those with the same target and identifier in the order
/// that they had.
pub proof fn law_sorting_is_stable(list: Seq<AlarmStateView>, key: AlarmStateView)
    ensures
        sorted(list).to_multiset() == list.to_multiset(),
        sorted(list).filter(tied_with(key)) == list.filter(tied_with(key)),
    decreases list.len(),
{
    broadcast use vstd::seq_lib::group_to_multiset_ensures;

    if list.len() > 0 {
        let rest = list.skip(1);
        law_sorting_is_stable(rest, key);
        lemma_inserted_ties(list[0], sorted(rest), key);
        assert(list =~= seq![list[0]] + rest);
        vstd::seq_lib::lemma_multiset_commutative(seq![list[0]], rest);
        assert(seq![list[0]] =~= Seq::<AlarmStateView>::empty().push(list[0]));
        assert(sorted(list).to_multiset() =~= list.to_multiset());
        text::lemma_filter_first(list[0], rest, tied_with(key));
        text::lemma_filter_first(list[0], sorted(rest), tied_with(key));
    }
}

/// The predicate that the records with the given identifier meet.
pub open spec fn has_id(id: Seq<char>) -> spec_fn(AlarmStateView) -> bool {
    |state: AlarmStateView| state.id == id
}

/// The predicate that the records whose identifier begins so meet.
pub open spec fn id_begins_with(prefix: Seq<char>) -> spec_fn(AlarmStateView) -> bool {
    |state: AlarmStateView| prefix.is_prefix_of(state.id)
}

/// The record that a selector means: the first one of that identifier, or else the only one whose
/// identifier begins with it.
pub open spec fn selected(states: Seq<AlarmStateView>, selector: Seq<char>) -> Result<
    AlarmStateView,
    Seq<char>,
> {
    let at = text::index_where(states, has_id(selector));
    let matches = states.filter(id_begins_with(selector));
    if at < states.len() {
        Ok(states[at])
    } else if matches.len() == 0 {
        Err("no active alarm matches `"@ + selector + "`"@)
    } else if matches.len() == 1 {
        Ok(matches[0])
    } else {
        Err(
            "alarm selector `"@ + selector
                + "` is ambiguous; use a longer prefix or the full id"@,
        )
    }
}

/// The index of the first record with the given identifier, or the number of records.
fn find_id(states: &[ActiveAlarmState], id: &str) -> (r: usize)
    ensures
        r == text::index_where(records(states@), has_id(id@)),
        r <= states@.len(),
{
    let mut at: usize = 0;
    while at < states.len() && !text::same_text(states[at].id.as_str(), id)
        invariant
            at <= states@.len(),
            forall|j: int| 0 <= j < at ==> !has_id(id@)(#[trigger] records(states@)[j]),
        decreases states@.len() - at,
    {
        assert(records(states@)[at as int] == states@[at as int]@);
        at = at + 1;
    }
    proof {
        if at < states@.len() {
            assert(records(states@)[at as int] == states@[at as int]@);
        }
        text::lemma_index_where(records(states@), has_id(id@), at as int);
    }
    at
}

/// Finds the record that a selector means.
pub fn resolve_alarm_selector(states: &[ActiveAlarmState], selector: &str) -> (r: AppResult<
    ActiveAlarmState,
>)
    ensures
        types::outcome_view(r) == selected(records(states@), selector@),
{
    let exact = find_id(states, selector);
    if exact < states.len() {
        assert(records(states@)[exact as int] == states@[exact as int]@);
        return Ok(copy_state(&states[exact]));
    }
    let ghost all = records(states@);
    let ghost p = id_begins_with(selector@);
    let mut matches: Vec<usize> = Vec::new();
    let mut i: usize = 0;
    proof {
        assert(all.take(0).filter(p) =~= Seq::<AlarmStateView>::empty()) by {
            reveal(Seq::filter);
        }
    }
    while i < states.len()
        invariant
            all == records(states@),
            p == id_begins_with(selector@),
            i <= states@.len(),
            all.take(i as int).filter(p).len() == matches@.len(),
            forall|k: int|
                0 <= k < matches@.len() ==> #[trigger] matches@[k] < states@.len()
                    && all.take(i as int).filter(p)[k] == states@[matches@[k] as int]@,
        decreases states@.len() - i,
    {
        proof {
            let longer = all.take(i + 1);
            assert(longer.drop_last() =~= all.take(i as int));
            assert(longer.last() == states@[i as int]@);
            assert(longer.filter(p) =~= if p(longer.last()) {
                all.take(i as int).filter(p).push(longer.last())
            } else {
                all.take(i as int).filter(p)
            }) by {
                reveal(Seq::filter);
            }
        }
        if text::starts_with(states[i].id.as_str(), selector) {
            matches.push(i);
        }
        i = i + 1;
    }
    assert(all.take(i as int) =~= all);
    if matches.len() == 0 {
        Err(text::concat3("no active alarm matches `", selector, "`"))
    } else if matches.len() == 1 {
        Ok(copy_state(&states[matches[0]]))
    } else {
        Err(
            text::concat3(
                "alarm selector `",
                selector,
                "` is ambiguous; use a longer prefix or the full id",
            ),
        )
    }
}

/// A full identifier selects a record that has it, whatever other identifiers begin with it.
pub proof fn law_full_id_selects(states: Seq<AlarmStateView>, at: int)
    requires
        0 <= at < states.len(),
    ensures
        selected(states, states[at].id) matches Ok(state) && state.id == states[at].id
            && states.contains(state),
{
    let id = states[at].id;
    text::lemma_index_where_holds(states, has_id(id));
    let first = text::index_where(states, has_id(id));
    if first == states.len() {
        assert(has_id(id)(states[at]));
    }
    assert(states.contains(states[first]));
}

/// A selected record is one of those there, and its identifier begins with the selector.
pub proof fn law_selected_matches(states: Seq<AlarmStateView>, selector: Seq<char>)
    ensures
        selected(states, selector) matches Ok(state) ==> states.contains(state)
            && selector.is_prefix_of(state.id),
{
    broadcast use vstd::seq_lib::group_filter_ensures;

    let at = text::index_where(states, has_id(selector));
    text::lemma_index_where_holds(states, has_id(selector));
    if at < states.len() {
        assert(states.contains(states[at]));
        assert(selector =~= selector.subrange(0, selector.len() as int));
    } else {
        let matches = states.filter(id_begins_with(selector));
        if matches.len() == 1 {
            assert(matches.contains(matches[0]));
            states.lemma_filter_contains_rev(id_begins_with(selector), matches[0]);
            assert(id_begins_with(selector)(matches[0]));
        }
    }
}

/// The target of a record.
pub open spec fn state_target(state: AlarmStateView) -> Result<UtcTime, Seq<char>> {
    calendar::target_from(
        calendar::utc_reading(state.target_utc),
        state.target_utc,
        "invalid stored target time"@,
    )
}

/// Reads the target of a record.
pub fn parse_state_target_utc(state: &ActiveAlarmState) -> (r: AppResult<UtcTime>)
    ensures
        types::outcome(r) == state_target(state@),
        r matches Ok(target) ==> target.wf(),
{
    let stored = state.target_utc.as_str();
    calendar::take_target(calendar::read_utc(stored), stored, "invalid stored target time")
}

/// Makes the record of an alarm that was just started. Its target reads back where RFC 3339 has a
/// form for it.
pub fn new_alarm_state(
    alarm_id: &str,
    pid: u32,
    spec_text: &str,
    target: UtcTime,
    created: UtcTime,
    auto_stop_seconds: u64,
    audio: &AlarmAudioConfig,
) -> (r: ActiveAlarmState)
    requires
        target.wf(),
        created.wf(),
    ensures
        r@ == (AlarmStateView {
            id: alarm_id@,
            pid,
            spec_text: spec_text@,
            target_utc: calendar::utc_rfc3339(target.secs as int, target.nanos as int),
            created_at_utc: calendar::utc_rfc3339(created.secs as int, created.nanos as int),
            auto_stop_seconds,
            volume: audio.volume,
            sound_file: text::optional_text(audio.sound_file),
        }),
        calendar::has_rfc3339_form(target) ==> state_target(r@) == Ok::<UtcTime, Seq<char>>(target),
{
    ActiveAlarmState {
        id: alarm_id.to_string(),
        pid,
        spec_text: spec_text.to_string(),
        target_utc: calendar::write_rfc3339(target),
        created_at_utc: calendar::write_rfc3339(created),
        auto_stop_seconds,
        volume: audio.volume,
        sound_file: copy_text(&audio.sound_file),
    }
}

/// The identifier of an alarm that a process starts at a time, in nanoseconds since 1970.
pub open spec fn alarm_id(nanos: int, pid: int) -> Seq<char> {
    text::numeral(nanos, 16) + "-"@ + text::numeral(pid, 16)
}

/// Makes the identifier of an alarm.
pub fn generate_alarm_id(nanos: u128, pid: u32) -> (r: String)
    ensures
        r@ == alarm_id(nanos as int, pid as int),
{
    let mut out = String::new();
    text::push_numeral(&mut out, nanos, 16);
    out.append("-");
    text::push_numeral(&mut out, pid as u128, 16);
    assert(out@ =~= alarm_id(nanos as int, pid as int));
    out
}

/// Alarms that are started at different times or by different processes have different identifiers.
pub proof fn law_alarm_ids_differ(nanos1: int, pid1: int, nanos2: int, pid2: int)
    requires
        nanos1 >= 0,
        pid1 >= 0,
        nanos2 >= 0,
        pid2 >= 0,
        alarm_id(nanos1, pid1) == alarm_id(nanos2, pid2),
    ensures
        nanos1 == nanos2,
        pid1 == pid2,
{
    reveal_strlit("-");
    let (a1, b1) = (text::numeral(nanos1, 16), text::numeral(pid1, 16));
    let (a2, b2) = (text::numeral(nanos2, 16), text::numeral(pid2, 16));
    text::lemma_numeral_digits(nanos1, 16);
    text::lemma_numeral_digits(nanos2, 16);
    let whole = alarm_id(nanos1, pid1);
    assert(whole[a1.len() as int] == '-');
    assert(whole[a2.len() as int] == '-');
    if a1.len() < a2.len() {
        assert(whole[a1.len() as int] == a2[a1.len() as int]);
    } else if a2.len() < a1.len() {
        assert(whole[a2.len() as int] == a1[a2.len() as int]);
    }
    assert(a1 =~= whole.take(a1.len() as int));
    assert(a2 =~= whole.take(a2.len() as int));
    assert(b1 =~= whole.skip(a1.len() as int + 1));
    assert(b2 =~= whole.skip(a2.len() as int + 1));
    text::lemma_numeral_injective(nanos1, nanos2, 16);
    text::lemma_numeral_injective(pid1, pid2, 16);
}

/// The directory of the records.
pub open spec fn alarms_below(home: Option<Seq<u8>>) -> Result<Seq<u8>, Seq<char>> {
    config::file_below(home, paths::bytes_of("alarms"@))
}

/// The directory of the records, given the home directory.
pub fn alarms_root(home: Option<&[u8]>) -> (r: AppResult<Vec<u8>>)
    ensures
        types::outcome_view(r) == alarms_below(paths::optional_path(home)),
{
    match config::config_root(home) {
        Ok(root) => Ok(paths::join(root.as_slice(), "alarms".as_bytes())),
        Err(refusal) => Err(refusal),
    }
}

/// The file of the record of an alarm.
pub open spec fn state_file(alarm_id: Seq<char>, home: Option<Seq<u8>>) -> Result<
    Seq<u8>,
    Seq<char>,
> {
    match alarms_below(home) {
        Ok(root) => Ok(paths::joined(root, paths::bytes_of(alarm_id + ".toml"@))),
        Err(refusal) => Err(refusal),
    }
}

/// The file of the record of an alarm, given the home directory.
pub fn alarm_state_file_path(alarm_id: &str, home: Option<&[u8]>) -> (r: AppResult<Vec<u8>>)
    ensures
        types::outcome_view(r) == state_file(alarm_id@, paths::optional_path(home)),
{
    match alarms_root(home) {
        Ok(root) => {
            let name = text::concat2(alarm_id, ".toml");
            Ok(paths::join(root.as_slice(), name.as_str().as_bytes()))
        },
        Err(refusal) => Err(refusal),
    }
}

/// Whether a file in the directory of the records is one: its name ends in `.toml` behind at least
/// one other character.
pub open spec fn names_record(name: Seq<u8>) -> bool {
    let at = name.len() - 5;
    at > 0 && name.skip(at) == paths::bytes_of(".toml"@)
}

/// Tells whether a file in the directory of the records is one.
pub fn is_state_file(name: &[u8]) -> (r: bool)
    ensures
        r == names_record(name@),
{
    if name.len() <= 5 {
        return false;
    }
    let tail = vstd::slice::slice_subrange(name, name.len() - 5, name.len());
    assert(tail@ =~= name@.skip(name@.len() - 5));
    text::same_bytes(tail, ".toml".as_bytes())
}

/// What takes the record of an alarm away when the alarm is over.
pub struct ActiveAlarmGuard {
    path: Vec<u8>,
    alarm_id: String,
}

impl ActiveAlarmGuard {
    /// The file of the record.
    pub closed spec fn record_path(&self) -> Seq<u8> {
        self.path@
    }

    /// The identifier of the alarm.
    pub closed spec fn record_id(&self) -> Seq<char> {
        self.alarm_id@
    }

    /// A guard for the record of an alarm, given the home directory.
    pub fn new(alarm_id: String, home: Option<&[u8]>) -> (r: AppResult<ActiveAlarmGuard>)
        ensures
            match r {
                Ok(guard) => {
                    &&& state_file(alarm_id@, paths::optional_path(home)) == Ok::<
                        Seq<u8>,
                        Seq<char>,
                    >(guard.record_path())
                    &&& guard.record_id() == alarm_id@
                },
                Err(refusal) => state_file(alarm_id@, paths::optional_path(home)) == Err::<
                    Seq<u8>,
                    Seq<char>,
                >(refusal@),
            },
    {
        match alarm_state_file_path(alarm_id.as_str(), home) {
            Ok(path) => Ok(ActiveAlarmGuard { path, alarm_id }),
            Err(refusal) => Err(refusal),
        }
    }

    /// The file of the record.
    pub fn path(&self) -> (r: &[u8])
        ensures
            r@ == self.record_path(),
    {
        self.path.as_slice()
    }

    /// Whether the record that is stored, if there is one, is that of the alarm and goes away with
    /// it.
    pub fn clears(&self, stored: &Option<ActiveAlarmState>) -> (r: bool)
        ensures
            r == (*stored matches Some(state) && state@.id == self.record_id()),
    {
        match stored {
            Some(state) => text::same_text(state.id.as_str(), self.alarm_id.as_str()),
            None => false,
        }
    }
}

/// The word for a yes or a no.
pub open spec fn bool_word(value: bool) -> Seq<char> {
    if value {
        "true"@
    } else {
        "false"@
    }
}

fn bool_text(value: bool) -> (r: String)
    ensures
        r@ == bool_word(value),
{
    if value {
        "true".to_string()
    } else {
        "false".to_string()
    }
}

/// The words with which the program is called to run an alarm in the background. The volume is
/// given as the text of a number.
pub open spec fn worker_line(
    alarm_id: Seq<char>,
    target: Seq<char>,
    auto_stop_seconds: u64,
    volume: Seq<char>,
    sound_file: Option<Seq<char>>,
    notifications: AlarmNotificationConfig,
) -> Seq<Seq<char>> {
    seq![
        "__worker"@,
        "--alarm-id"@,
        alarm_id,
        "--target-utc"@,
        target,
        "--auto-stop-seconds"@,
        text::decimal(auto_stop_seconds as int),
        "--volume"@,
        volume,
    ] + (match sound_file {
        Some(path) => seq!["--sound-file"@, path],
        None => Seq::empty(),
    }) + seq![
        "--notifications-enabled"@,
        bool_word(notifications.enabled),
        "--notifications-clickable"@,
        bool_word(notifications.clickable),
        "--notifications-timeout-ms"@,
        text::decimal(notifications.timeout_ms as int),
        "--notifications-show-stop-button"@,
        bool_word(notifications.show_stop_button),
    ]
}

/// Whether the arguments are those words, and the word for the volume reads as the given number.
pub open spec fn carries(args: Seq<ArgumentView>, line: Seq<Seq<char>>, volume: Volume) -> bool {
    &&& args.len() == line.len()
    &&& forall|i: int| 0 <= i < args.len() ==> (#[trigger] args[i]).text == line[i]
    &&& args[8].number == Some(volume.bits)
}

proof fn lemma_worker_flags()
    ensures
        parse::worker_flag("--alarm-id"@) == Some(parse::WorkerFlag::AlarmId),
        parse::worker_flag("--target-utc"@) == Some(parse::WorkerFlag::TargetUtc),
        parse::worker_flag("--auto-stop-seconds"@) == Some(parse::WorkerFlag::AutoStopSeconds),
        parse::worker_flag("--volume"@) == Some(parse::WorkerFlag::Volume),
        parse::worker_flag("--sound-file"@) == Some(parse::WorkerFlag::SoundFile),
        parse::worker_flag("--notifications-enabled"@) == Some(
            parse::WorkerFlag::NotificationsEnabled,
        ),
        parse::worker_flag("--notifications-clickable"@) == Some(
            parse::WorkerFlag::NotificationsClickable,
        ),
        parse::worker_flag("--notifications-timeout-ms"@) == Some(
            parse::WorkerFlag::NotificationsTimeoutMs,
        ),
        parse::worker_flag("--notifications-show-stop-button"@) == Some(
            parse::WorkerFlag::NotificationsShowStopButton,
        ),
{
    reveal_strlit("--alarm-id");
    reveal_strlit("--target-utc");
    reveal_strlit("--auto-stop-seconds");
    reveal_strlit("--volume");
    reveal_strlit("--sound-file");
    reveal_strlit("--notifications-enabled");
    reveal_strlit("--notifications-clickable");
    reveal_strlit("--notifications-timeout-ms");
    reveal_strlit("--notifications-show-stop-button");
    assert("--alarm-id"@.len() == 10);
    assert("--target-utc"@.len() == 12);
    assert("--auto-stop-seconds"@.len() == 19);
    assert("--volume"@.len() == 8);
    assert("--sound-file"@.len() == 12);
    assert("--notifications-enabled"@.len() == 23);
    assert("--notifications-clickable"@.len() == 25);
    assert("--notifications-timeout-ms"@.len() == 26);
    assert("--notifications-show-stop-button"@.len() == 32);
    assert("--sound-file"@[2] != "--target-utc"@[2]);
}

proof fn lemma_bool_reads_back(value: bool)
    ensures
        config::bool_reading(bool_word(value)) == Ok::<bool, Seq<char>>(value),
{
    reveal_strlit("true");
    reveal_strlit("false");
    reveal_strlit("1");
    reveal_strlit("yes");
    reveal_strlit("on");
    text::lemma_plain_word(bool_word(value));
}

proof fn lemma_worker_step(
    words: Seq<ArgumentView>,
    so_far: parse::WorkerWords,
    flag: parse::WorkerFlag,
    said: parse::WorkerWords,
)
    requires
        words.len() >= 2,
        parse::worker_flag(words[0].text) == Some(flag),
        parse::worker_with(so_far, flag, words[1]) == Ok::<parse::WorkerWords, Seq<char>>(said),
    ensures
        parse::worker_words(words, so_far) == parse::worker_words(words.skip(2), said),
{
}

proof fn lemma_notification_words(
    words: Seq<ArgumentView>,
    so_far: parse::WorkerWords,
    notifications: AlarmNotificationConfig,
)
    requires
        words.len() == 8,
        words[0].text == "--notifications-enabled"@,
        words[1].text == bool_word(notifications.enabled),
        words[2].text == "--notifications-clickable"@,
        words[3].text == bool_word(notifications.clickable),
        words[4].text == "--notifications-timeout-ms"@,
        words[5].text == text::decimal(notifications.timeout_ms as int),
        words[6].text == "--notifications-show-stop-button"@,
        words[7].text == bool_word(notifications.show_stop_button),
    ensures
        parse::worker_words(words, so_far) == Ok::<parse::WorkerWords, Seq<char>>(
            parse::WorkerWords { notifications, ..so_far },
        ),
{
    lemma_worker_flags();
    lemma_bool_reads_back(notifications.enabled);
    lemma_bool_reads_back(notifications.clickable);
    lemma_bool_reads_back(notifications.show_stop_button);
    text::law_decimal_reads_back(notifications.timeout_ms as int, 0xffff_ffff);
    let old = so_far.notifications;
    let n1 = AlarmNotificationConfig { enabled: notifications.enabled, ..old };
    let n2 = AlarmNotificationConfig { clickable: notifications.clickable, ..n1 };
    let n3 = AlarmNotificationConfig { timeout_ms: notifications.timeout_ms, ..n2 };
    let n4 = AlarmNotificationConfig { show_stop_button: notifications.show_stop_button, ..n3 };
    let s1 = parse::WorkerWords { notifications: n1, ..so_far };
    let s2 = parse::WorkerWords { notifications: n2, ..so_far };
    let s3 = parse::WorkerWords { notifications: n3, ..so_far };
    let s4 = parse::WorkerWords { notifications: n4, ..so_far };
    lemma_worker_step(words, so_far, parse::WorkerFlag::NotificationsEnabled, s1);
    let w1 = words.skip(2);
    lemma_worker_step(w1, s1, parse::WorkerFlag::NotificationsClickable, s2);
    let w2 = w1.skip(2);
    lemma_worker_step(w2, s2, parse::WorkerFlag::NotificationsTimeoutMs, s3);
    let w3 = w2.skip(2);
    lemma_worker_step(w3, s3, parse::WorkerFlag::NotificationsShowStopButton, s4);
    let w4 = w3.skip(2);
    assert(w4.len() == 0);
    assert(n4 == notifications);
}

/// The words with which the program is called to run an alarm in the background read as the command
/// to run that very alarm, given that the text for its target reads as its target.
pub proof fn law_worker_line_reads_back(
    args: Seq<ArgumentView>,
    alarm_id: Seq<char>,
    target_text: Seq<char>,
    target_utc: UtcTime,
    auto_stop_seconds: u64,
    volume_text: Seq<char>,
    volume: Volume,
    sound_file: Option<Seq<char>>,
    notifications: AlarmNotificationConfig,
)
    requires
        carries(
            args,
            worker_line(
                alarm_id,
                target_text,
                auto_stop_seconds,
                volume_text,
                sound_file,
                notifications,
            ),
            volume,
        ),
        calendar::utc_reading(target_text) == Ok::<UtcTime, Seq<char>>(target_utc),
        volume.in_range(),
    ensures
        parse::command_reading(args) == Ok::<CommandView, Seq<char>>(
            CommandView::Worker {
                alarm_id,
                target_utc,
                auto_stop_seconds,
                volume,
                sound_file,
                notifications,
            },
        ),
{
    let line = worker_line(
        alarm_id,
        target_text,
        auto_stop_seconds,
        volume_text,
        sound_file,
        notifications,
    );
    lemma_worker_flags();
    text::law_decimal_reads_back(auto_stop_seconds as int, u64::MAX as int);
    let words = args.skip(1);
    let s0 = parse::no_worker_words();
    let s1 = parse::WorkerWords { alarm_id: Some(alarm_id), ..s0 };
    let s2 = parse::WorkerWords { target_utc: Some(target_utc), ..s1 };
    let s3 = parse::WorkerWords { auto_stop_seconds, ..s2 };
    let s4 = parse::WorkerWords { volume: Some(volume), ..s3 };
    let s5 = parse::WorkerWords { sound_file, ..s4 };
    assert(args[1].text == line[1] && args[2].text == line[2] && args[3].text == line[3]
        && args[4].text == line[4] && args[5].text == line[5] && args[6].text == line[6]
        && args[7].text == line[7] && args[8].text == line[8]);
    assert(words[0] == args[1] && words[1] == args[2]);
    lemma_worker_step(words, s0, parse::WorkerFlag::AlarmId, s1);
    let w1 = words.skip(2);
    assert(w1[0] == args[3] && w1[1] == args[4]);
    lemma_worker_step(w1, s1, parse::WorkerFlag::TargetUtc, s2);
    let w2 = w1.skip(2);
    assert(w2[0] == args[5] && w2[1] == args[6]);
    lemma_worker_step(w2, s2, parse::WorkerFlag::AutoStopSeconds, s3);
    let w3 = w2.skip(2);
    assert(w3[0] == args[7] && w3[1] == args[8]);
    lemma_worker_step(w3, s3, parse::WorkerFlag::Volume, s4);
    let w4 = w3.skip(2);
    let from: int = match sound_file {
        Some(path) => {
            assert(args[9].text == line[9] && args[10].text == line[10]);
            assert(w4[0] == args[9] && w4[1] == args[10]);
            lemma_worker_step(w4, s4, parse::WorkerFlag::SoundFile, s5);
            11
        },
        None => 9,
    };
    let w5 = args.skip(from);
    assert(args.len() == from + 8);
    assert forall|k: int| 0 <= k < 8 implies (#[trigger] w5[k]).text == line[from + k] by {
        assert(w5[k] == args[from + k]);
    }
    assert(sound_file is Some ==> w4.skip(2) =~= w5);
    assert(sound_file is None ==> w4 =~= w5);
    assert(w5[0].text == line[from] && w5[1].text == line[from + 1] && w5[2].text == line[from + 2]
        && w5[3].text == line[from + 3] && w5[4].text == line[from + 4] && w5[5].text == line[from
        + 5] && w5[6].text == line[from + 6] && w5[7].text == line[from + 7]);
    lemma_notification_words(w5, s5, notifications);
    assert(args[0].text == line[0]);
    lemma_worker_word();
}

/// The first word of a call that runs an alarm in the background is no other command.
proof fn lemma_worker_word()
    ensures
        "__worker"@ != "--help"@,
        "__worker"@ != "-h"@,
        "__worker"@ != "config"@,
        "__worker"@ != "status"@,
        "__worker"@ != "stop"@,
        "__worker"@ != "volume"@,
{
    reveal_strlit("__worker");
    reveal_strlit("--help");
    reveal_strlit("-h");
    reveal_strlit("config");
    reveal_strlit("status");
    reveal_strlit("stop");
    reveal_strlit("volume");
    assert("__worker"@.len() == 8);
    assert("--help"@.len() == 6);
    assert("-h"@.len() == 2);
    assert("config"@.len() == 6);
    assert("status"@.len() == 6);
    assert("stop"@.len() == 4);
    assert("volume"@.len() == 6);
}

fn push_word(words: &mut Vec<String>, word: &str)
    ensures
        text::texts(final(words)@) == text::texts(old(words)@).push(word@),
{
    let ghost before = text::texts(words@);
    words.push(word.to_string());
    assert(text::texts(words@) =~= before.push(word@));
}

/// Makes the words with which the program is called to run an alarm in the background, given the
/// text for its target.
pub fn worker_words(
    alarm_id: &str,
    target: &str,
    auto_stop_seconds: u64,
    volume: &str,
    sound_file: &Option<String>,
    notifications: AlarmNotificationConfig,
) -> (r: Vec<String>)
    ensures
        text::texts(r@) == worker_line(
            alarm_id@,
            target@,
            auto_stop_seconds,
            volume@,
            text::optional_text(*sound_file),
            notifications,
        ),
{
    let mut words: Vec<String> = Vec::new();
    push_word(&mut words, "__worker");
    push_word(&mut words, "--alarm-id");
    push_word(&mut words, alarm_id);
    push_word(&mut words, "--target-utc");
    push_word(&mut words, target);
    push_word(&mut words, "--auto-stop-seconds");
    push_word(&mut words, text::decimal_text(auto_stop_seconds).as_str());
    push_word(&mut words, "--volume");
    push_word(&mut words, volume);
    if let Some(path) = sound_file {
        push_word(&mut words, "--sound-file");
        push_word(&mut words, path.as_str());
    }
    push_word(&mut words, "--notifications-enabled");
    push_word(&mut words, bool_text(notifications.enabled).as_str());
    push_word(&mut words, "--notifications-clickable");
    push_word(&mut words, bool_text(notifications.clickable).as_str());
    push_word(&mut words, "--notifications-timeout-ms");
    push_word(&mut words, text::decimal_text(notifications.timeout_ms as u64).as_str());
    push_word(&mut words, "--notifications-show-stop-button");
    push_word(&mut words, bool_text(notifications.show_stop_button).as_str());
    assert(text::texts(words@) =~= worker_line(
        alarm_id@,
        target@,
        auto_stop_seconds,
        volume@,
        text::optional_text(*sound_file),
        notifications,
    ));
    words
}

/// Makes the words with which the program is called to run an alarm in the background. Where RFC
/// 3339 has a form for the target, they read as the command to run that very alarm.
pub fn worker_arguments(
    alarm_id: &str,
    target: UtcTime,
    auto_stop_seconds: u64,
    volume: &str,
    sound_file: &Option<String>,
    notifications: AlarmNotificationConfig,
) -> (r: Vec<String>)
    requires
        target.wf(),
    ensures
        text::texts(r@) == worker_line(
            alarm_id@,
            calendar::utc_rfc3339(target.secs as int, target.nanos as int),
            auto_stop_seconds,
            volume@,
            text::optional_text(*sound_file),
            notifications,
        ),
        calendar::has_rfc3339_form(target) ==> forall|args: Seq<ArgumentView>, loudness: Volume|
            #[trigger] carries(args, text::texts(r@), loudness) && loudness.in_range()
                ==> parse::command_reading(args) == Ok::<CommandView, Seq<char>>(
                CommandView::Worker {
                    alarm_id: alarm_id@,
                    target_utc: target,
                    auto_stop_seconds,
                    volume: loudness,
                    sound_file: text::optional_text(*sound_file),
                    notifications,
                },
            ),
{
    let target_text = calendar::write_rfc3339(target);
    let words = worker_words(
        alarm_id,
        target_text.as_str(),
        auto_stop_seconds,
        volume,
        sound_file,
        notifications,
    );
    proof {
        if calendar::has_rfc3339_form(target) {
            assert forall|args: Seq<ArgumentView>, loudness: Volume| #[trigger]
                carries(args, text::texts(words@), loudness)
                    && loudness.in_range() implies parse::command_reading(args) == Ok::<
                CommandView,
                Seq<char>,
            >(
                CommandView::Worker {
                    alarm_id: alarm_id@,
                    target_utc: target,
                    auto_stop_seconds,
                    volume: loudness,
                    sound_file: text::optional_text(*sound_file),
                    notifications,
                },
            ) by {
                law_worker_line_reads_back(
                    args,
                    alarm_id@,
                    target_text@,
                    target,
                    auto_stop_seconds,
                    volume@,
                    loudness,
                    text::optional_text(*sound_file),
                    notifications,
                );
            }
        }
    }
    words
}

/// What came of a signal to a process.
#[derive(Clone, Copy, Debug, PartialEq, Eq, Structural)]
pub enum SignalOutcome {
    Delivered,
    /// There is no such process.
    NoProcess,
    /// There is such a process, and signals to it are not permitted.
    NotPermitted,
    Failed,
}

/// What stopping an alarm answers, by what came of the signal: a process that is gone is stopped.
pub open spec fn stop_answer(pid: u32, outcome: SignalOutcome, message: Seq<char>) -> Result<
    (),
    Seq<char>,
> {
    match outcome {
        SignalOutcome::Delivered | SignalOutcome::NoProcess => Ok(()),
        _ => Err("failed to stop alarm worker "@ + text::decimal(pid as int) + ": "@ + message),
    }
}

/// Answers for the signal that was to stop the process of an alarm.
pub fn terminate_process(pid: u32, outcome: SignalOutcome, message: &str) -> (r: AppResult<()>)
    ensures
        types::outcome(r) == stop_answer(pid, outcome, message@),
{
    match outcome {
        SignalOutcome::Delivered | SignalOutcome::NoProcess => Ok(()),
        _ => {
            let number = text::decimal_text(pid as u64);
            let front = text::concat3("failed to stop alarm worker ", number.as_str(), ": ");
            Err(text::concat2(front.as_str(), message))
        },
    }
}

/// Whether a process is alive, by what came of a signal that does nothing to it.
pub open spec fn life_answer(pid: u32, outcome: SignalOutcome, message: Seq<char>) -> Result<
    bool,
    Seq<char>,
> {
    match outcome {
        SignalOutcome::Delivered | SignalOutcome::NotPermitted => Ok(true),
        SignalOutcome::NoProcess => Ok(false),
        SignalOutcome::Failed => Err(
            "failed to inspect process "@ + text::decimal(pid as int) + ": "@ + message,
        ),
    }
}

/// Tells whether a process is alive.
pub fn process_is_alive(pid: u32, outcome: SignalOutcome, message: &str) -> (r: AppResult<bool>)
    ensures
        types::outcome(r) == life_answer(pid, outcome, message@),
{
    match outcome {
        SignalOutcome::Delivered | SignalOutcome::NotPermitted => Ok(true),
        SignalOutcome::NoProcess => Ok(false),
        SignalOutcome::Failed => {
            let number = text::decimal_text(pid as u64);
            let front = text::concat3("failed to inspect process ", number.as_str(), ": ");
            Err(text::concat2(front.as_str(), message))
        },
    }
}

/// What has happened last while a background alarm is started.
#[derive(Debug)]
pub enum StartEvent {
    /// The worker runs and its record is saved.
    Saved,
    /// The worker runs and its record could not be saved.
    NotSaved(String),
    /// The worker was found running, or not.
    Inspected(bool),
    /// Whether the worker runs could not be found out.
    NotInspected(String),
    /// The record of a worker that does not run was taken away.
    Cleared,
    /// The record of a worker that does not run could not be taken away.
    NotCleared(String),
}

/// What is to be done next while a background alarm is started.
#[derive(Debug)]
pub enum StartAction {
    /// Find out whether the worker runs.
    Inspect,
    /// Take the record away.
    Clear,
    /// The alarm is under way.
    Done,
    /// Stop the worker, whatever comes of that, and give up.
    StopAndGiveUp(String),
    /// Give up.
    GiveUp(String),
}

/// The refusal of an alarm whose worker is gone.
pub const WORKER_GONE: &'static str = "background alarm worker exited before it could be tracked";

/// Whether `action` is what follows `event`.
pub open spec fn start_follows(event: StartEvent, action: StartAction) -> bool {
    match event {
        StartEvent::Saved => action is Inspect,
        StartEvent::NotSaved(message) => action matches StartAction::StopAndGiveUp(refusal)
            && refusal@ == message@,
        StartEvent::Inspected(runs) => if runs {
            action is Done
        } else {
            action is Clear
        },
        StartEvent::NotInspected(message) => action matches StartAction::GiveUp(refusal) && refusal@
            == message@,
        StartEvent::Cleared => action matches StartAction::GiveUp(refusal) && refusal@
            == WORKER_GONE@,
        StartEvent::NotCleared(message) => action matches StartAction::GiveUp(refusal) && refusal@
            == message@,
    }
}

/// Decides what is to be done next while a background alarm is started.
pub fn next_start_action(event: StartEvent) -> (r: StartAction)
    ensures
        start_follows(event, r),
{
    match event {
        StartEvent::Saved => StartAction::Inspect,
        StartEvent::NotSaved(message) => StartAction::StopAndGiveUp(message),
        StartEvent::Inspected(runs) => if runs {
            StartAction::Done
        } else {
            StartAction::Clear
        },
        StartEvent::NotInspected(message) => StartAction::GiveUp(message),
        StartEvent::Cleared => StartAction::GiveUp(WORKER_GONE.to_string()),
        StartEvent::NotCleared(message) => StartAction::GiveUp(message),
    }
}

/// A record that was found, and whether its worker runs.
#[derive(Debug)]
pub struct FoundAlarm {
    pub state: ActiveAlarmState,
    pub running: bool,
}

/// The records of those whose workers run, as they were found.
pub open spec fn running_records(found: Seq<FoundAlarm>) -> Seq<AlarmStateView>
    decreases found.len(),
{
    if found.len() == 0 {
        Seq::empty()
    } else if found.last().running {
        running_records(found.drop_last()).push(found.last().state@)
    } else {
        running_records(found.drop_last())
    }
}

/// The records whose workers run, in order.
pub fn active_alarm_states(found: &[FoundAlarm]) -> (r: Vec<ActiveAlarmState>)
    ensures
        records(r@) == sorted(running_records(found@)),
{
    let mut states: Vec<ActiveAlarmState> = Vec::new();
    let mut i: usize = 0;
    assert(records(states@) =~= running_records(found@.take(0)));
    while i < found.len()
        invariant
            i <= found@.len(),
            records(states@) == running_records(found@.take(i as int)),
        decreases found@.len() - i,
    {
        let ghost before = records(states@);
        assert(found@.take(i + 1).drop_last() =~= found@.take(i as int));
        if found[i].running {
            states.push(copy_state(&found[i].state));
            assert(records(states@) =~= before.push(found@[i as int].state@));
        }
        i = i + 1;
    }
    assert(found@.take(i as int) =~= found@);
    sort_states(states)
}

/// Alarms that are started at different times or by different processes have records in different
/// files.
pub proof fn law_alarms_have_files_of_their_own(
    nanos1: int,
    pid1: int,
    nanos2: int,
    pid2: int,
    home: Seq<u8>,
)
    requires
        nanos1 >= 0,
        pid1 >= 0,
        nanos2 >= 0,
        pid2 >= 0,
        nanos1 != nanos2 || pid1 != pid2,
    ensures
        state_file(alarm_id(nanos1, pid1), Some(home)) != state_file(
            alarm_id(nanos2, pid2),
            Some(home),
        ),
{
    let (id1, id2) = (alarm_id(nanos1, pid1), alarm_id(nanos2, pid2));
    let (name1, name2) = (id1 + ".toml"@, id2 + ".toml"@);
    text::lemma_numeral_digits(nanos1, 16);
    text::lemma_numeral_digits(nanos2, 16);
    assert(name1[0] == text::numeral(nanos1, 16)[0]);
    assert(name2[0] == text::numeral(nanos2, 16)[0]);
    paths::lemma_text_path_is_relative(name1);
    paths::lemma_text_path_is_relative(name2);
    if state_file(id1, Some(home)) == state_file(id2, Some(home)) {
        let root = alarms_below(Some(home))->Ok_0;
        paths::lemma_joined_differs(root, paths::bytes_of(name1), paths::bytes_of(name2));
        vstd::utf8::encode_utf8_decode_utf8(name1);
        vstd::utf8::encode_utf8_decode_utf8(name2);
        assert(name1.len() == name2.len());
        assert(id1 =~= name1.take(id1.len() as int));
        assert(id2 =~= name2.take(id2.len() as int));
        law_alarm_ids_differ(nanos1, pid1, nanos2, pid2);
    }
}

/// The records of those whose workers run, and of no others, are kept in the order in which they
/// were found.
pub proof fn law_running_records(found: Seq<FoundAlarm>)
    ensures
        running_records(found) == found.filter(|item: FoundAlarm| item.running).map_values(
            |item: FoundAlarm| item.state@,
        ),
    decreases found.len(),
{
    let runs = |item: FoundAlarm| item.running;
    let record = |item: FoundAlarm| item.state@;
    reveal(Seq::filter);
    if found.len() > 0 {
        let front = found.drop_last();
        law_running_records(front);
        if found.last().running {
            assert(found.filter(runs) == front.filter(runs).push(found.last()));
            assert(front.filter(runs).push(found.last()).map_values(record) =~= front.filter(
                runs,
            ).map_values(record).push(found.last().state@));
        }
    }
}

/// The alarms that are listed are, each as often as it was found, those found whose worker runs, and
/// no others. A running one is listed wherever it was found.
pub proof fn law_every_running_alarm_is_listed(found: Seq<FoundAlarm>, at: int)
    requires
        0 <= at < found.len(),
    ensures
        sorted(running_records(found)).to_multiset() == found.filter(
            |item: FoundAlarm| item.running,
        ).map_values(|item: FoundAlarm| item.state@).to_multiset(),
        found[at].running ==> sorted(running_records(found)).contains(found[at].state@),
        sorted(running_records(found)).contains(found[at].state@) ==> exists|i: int|
            0 <= i < found.len() && (#[trigger] found[i]).running && found[i].state@
                == found[at].state@,
{
    broadcast use vstd::seq_lib::group_to_multiset_ensures;

    let runs = |item: FoundAlarm| item.running;
    let record = |item: FoundAlarm| item.state@;
    let kept = found.filter(runs);
    let listed = running_records(found);
    law_running_records(found);
    law_sorting_is_stable(listed, found[at].state@);
    if found[at].running {
        found.lemma_filter_contains(runs, at);
        let k = choose|k: int| 0 <= k < kept.len() && kept[k] == found[at];
        assert(listed[k] == found[at].state@);
        assert(listed.contains(found[at].state@));
        assert(listed.to_multiset().count(found[at].state@) > 0);
    }
    if sorted(listed).contains(found[at].state@) {
        assert(sorted(listed).to_multiset().count(found[at].state@) > 0);
        assert(listed.contains(found[at].state@));
        let k = choose|k: int| 0 <= k < listed.len() && listed[k] == found[at].state@;
        assert(kept[k].state@ == found[at].state@);
        assert(kept.contains(kept[k]));
        found.lemma_filter_contains_rev(runs, kept[k]);
        found.lemma_filter_pred(runs, k);
        let i = choose|i: int| 0 <= i < found.len() && found[i] == kept[k];
        assert(found[i].running && found[i].state@ == found[at].state@);
    }
}

/// As many alarms are listed as were found with their worker running: one more that runs, wherever
/// it is found, is one more in the list, and one more that does not run changes nothing.
pub proof fn law_one_more_alarm(before: Seq<FoundAlarm>, more: FoundAlarm, after: Seq<FoundAlarm>)
    ensures
        running_records(before + seq![more] + after).len() == running_records(before + after).len()
            + if more.running {
            1int
        } else {
            0int
        },
        sorted(running_records(before + seq![more] + after)).to_multiset() == if more.running {
            sorted(running_records(before + after)).to_multiset().insert(more.state@)
        } else {
            sorted(running_records(before + after)).to_multiset()
        },
{
    broadcast use vstd::seq_lib::group_to_multiset_ensures;

    let (whole, less) = (before + seq![more] + after, before + after);
    lemma_running_records_of_two(before + seq![more], after);
    lemma_running_records_of_two(before, seq![more]);
    lemma_running_records_of_two(before, after);
    assert(seq![more].drop_last() =~= Seq::<FoundAlarm>::empty());
    assert(running_records(Seq::<FoundAlarm>::empty()) =~= Seq::<AlarmStateView>::empty());
    let (a, b) = (running_records(before), running_records(after));
    let one = running_records(seq![more]);
    assert(one =~= if more.running {
        seq![more.state@]
    } else {
        Seq::<AlarmStateView>::empty()
    });
    law_sorting_is_stable(running_records(whole), more.state@);
    law_sorting_is_stable(running_records(less), more.state@);
    vstd::seq_lib::lemma_multiset_commutative(a + one, b);
    vstd::seq_lib::lemma_multiset_commutative(a, one);
    vstd::seq_lib::lemma_multiset_commutative(a, b);
    if more.running {
        assert(one =~= Seq::<AlarmStateView>::empty().push(more.state@));
        assert(running_records(whole).to_multiset() =~= running_records(less).to_multiset().insert(
            more.state@,
        ));
    } else {
        assert(a + one =~= a);
    }
}

proof fn lemma_running_records_of_two(a: Seq<FoundAlarm>, b: Seq<FoundAlarm>)
    ensures
        running_records(a + b) == running_records(a) + running_records(b),
    decreases b.len(),
{
    if b.len() == 0 {
        assert(a + b =~= a);
        assert(running_records(a) + running_records(b) =~= running_records(a));
    } else {
        lemma_running_records_of_two(a, b.drop_last());
        assert((a + b).drop_last() =~= a + b.drop_last());
        assert(running_records(a + b) =~= running_records(a) + running_records(b));
    }
}

/// The alarms that are listed follow each other by the texts of their targets, and those with the
/// same target by their identifiers.
pub proof fn law_listed_in_order(list: Seq<AlarmStateView>, i: int, j: int)
    requires
        0 <= i < j < list.len(),
    ensures
        ({
            let (a, b) = (sorted(list)[i], sorted(list)[j]);
            ||| text::text_before(a.target_utc, b.target_utc)
            ||| a.target_utc == b.target_utc && (text::text_before(a.id, b.id) || a.id == b.id)
        }),
{
    law_sorted_is_in_order(list);
    let (a, b) = (sorted(list)[i], sorted(list)[j]);
    assert(!state_before(b, a));
    text::lemma_text_before_total(a.target_utc, b.target_utc);
    text::lemma_text_before_total(a.id, b.id);
}

/// The first record whose identifier is the selector is selected, whatever other identifiers begin
/// with it.
pub proof fn law_first_full_id_is_selected(
    states: Seq<AlarmStateView>,
    selector: Seq<char>,
    at: int,
)
    requires
        0 <= at < states.len(),
        states[at].id == selector,
        forall|j: int| 0 <= j < at ==> (#[trigger] states[j]).id != selector,
    ensures
        selected(states, selector) == Ok::<AlarmStateView, Seq<char>>(states[at]),
{
    assert forall|j: int| 0 <= j < at implies !has_id(selector)(#[trigger] states[j]) by {}
    text::lemma_index_where(states, has_id(selector), at);
}

proof fn lemma_matches(states: Seq<AlarmStateView>, selector: Seq<char>)
    requires
        forall|i: int| 0 <= i < states.len() ==> (#[trigger] states[i]).id != selector,
    ensures
        text::index_where(states, has_id(selector)) == states.len(),
{
    assert forall|j: int| 0 <= j < states.len() implies !has_id(selector)(
        #[trigger] states[j],
    ) by {}
    text::lemma_index_where(states, has_id(selector), states.len() as int);
}

proof fn lemma_filter_of_one<T>(s: Seq<T>, p: spec_fn(T) -> bool, at: int)
    requires
        0 <= at < s.len(),
        p(s[at]),
        forall|j: int| 0 <= j < s.len() && j != at ==> !p(#[trigger] s[j]),
    ensures
        s.filter(p) == seq![s[at]],
{
    let (front, back) = (s.take(at), s.skip(at + 1));
    lemma_filter_of_none(front, p);
    assert forall|j: int| 0 <= j < back.len() implies !p(#[trigger] back[j]) by {
        assert(back[j] == s[j + at + 1]);
    }
    lemma_filter_of_none(back, p);
    assert(s =~= front + (seq![s[at]] + back));
    Seq::filter_distributes_over_add(front, seq![s[at]] + back, p);
    text::lemma_filter_first(s[at], back, p);
    assert(Seq::<T>::empty() + (seq![s[at]] + Seq::<T>::empty()) =~= seq![s[at]]);
}

proof fn lemma_filter_of_none<T>(s: Seq<T>, p: spec_fn(T) -> bool)
    requires
        forall|j: int| 0 <= j < s.len() ==> !p(#[trigger] s[j]),
    ensures
        s.filter(p) == Seq::<T>::empty(),
    decreases s.len(),
{
    reveal(Seq::filter);
    if s.len() > 0 {
        let front = s.drop_last();
        assert forall|j: int| 0 <= j < front.len() implies !p(#[trigger] front[j]) by {
            assert(front[j] == s[j]);
        }
        lemma_filter_of_none(front, p);
        assert(!p(s[s.len() - 1]));
    }
}

/// Where no record has the selector as its identifier, the one record whose identifier begins with
/// the selector is selected.
pub proof fn law_only_match_is_selected(states: Seq<AlarmStateView>, selector: Seq<char>, at: int)
    requires
        forall|i: int| 0 <= i < states.len() ==> (#[trigger] states[i]).id != selector,
        0 <= at < states.len(),
        selector.is_prefix_of(states[at].id),
        forall|j: int|
            0 <= j < states.len() && j != at ==> !selector.is_prefix_of((#[trigger] states[j]).id),
    ensures
        selected(states, selector) == Ok::<AlarmStateView, Seq<char>>(states[at]),
{
    lemma_matches(states, selector);
    let p = id_begins_with(selector);
    assert forall|j: int| 0 <= j < states.len() && j != at implies !p(#[trigger] states[j]) by {}
    lemma_filter_of_one(states, p, at);
}

/// Where no record has the selector as its identifier, two records whose identifiers begin with it
/// have the selection refused as ambiguous.
pub proof fn law_ambiguous_selector_is_refused(
    states: Seq<AlarmStateView>,
    selector: Seq<char>,
    i: int,
    j: int,
)
    requires
        forall|k: int| 0 <= k < states.len() ==> (#[trigger] states[k]).id != selector,
        0 <= i < j < states.len(),
        selector.is_prefix_of(states[i].id),
        selector.is_prefix_of(states[j].id),
    ensures
        selected(states, selector) == Err::<AlarmStateView, Seq<char>>(
            "alarm selector `"@ + selector + "` is ambiguous; use a longer prefix or the full id"@,
        ),
{
    lemma_matches(states, selector);
    let p = id_begins_with(selector);
    let (front, back) = (states.take(j), states.skip(j));
    assert(states =~= front + back);
    Seq::filter_distributes_over_add(front, back, p);
    assert(front[i] == states[i] && back[0] == states[j]);
    front.lemma_filter_contains(p, i);
    back.lemma_filter_contains(p, 0);
    assert(front.filter(p).len() > 0 && back.filter(p).len() > 0);
}

/// A selector with which no identifier begins is refused.
pub proof fn law_unknown_selector_is_refused(states: Seq<AlarmStateView>, selector: Seq<char>)
    requires
        forall|k: int|
            0 <= k < states.len() ==> !selector.is_prefix_of((#[trigger] states[k]).id),
    ensures
        selected(states, selector) == Err::<AlarmStateView, Seq<char>>(
            "no active alarm matches `"@ + selector + "`"@,
        ),
{
    assert forall|i: int| 0 <= i < states.len() implies (#[trigger] states[i]).id != selector by {
        assert(selector =~= selector.subrange(0, selector.len() as int));
    }
    lemma_matches(states, selector);
    let p = id_begins_with(selector);
    assert forall|j: int| 0 <= j < states.len() implies !p(#[trigger] states[j]) by {}
    lemma_filter_of_none(states, p);
}

/// An identifier holds the time and the number of the process, both in hexadecimal digits, with a
/// hyphen between them.
pub proof fn law_alarm_id_spells(nanos: int, pid: int)
    requires
        nanos >= 0,
        pid >= 0,
    ensures
        exists|at: int|
            {
                &&& 0 < at < alarm_id(nanos, pid).len() - 1
                &&& #[trigger] alarm_id(nanos, pid)[at] == '-'
                &&& text::value_in(alarm_id(nanos, pid).take(at), 16) == nanos
                &&& text::value_in(alarm_id(nanos, pid).skip(at + 1), 16) == pid
            },
{
    reveal_strlit("-");
    let id = alarm_id(nanos, pid);
    let (a, b) = (text::numeral(nanos, 16), text::numeral(pid, 16));
    text::law_numeral_spells(nanos, 16);
    text::law_numeral_spells(pid, 16);
    let at = a.len() as int;
    assert(id.take(at) =~= a);
    assert(id.skip(at + 1) =~= b);
    assert(id[at] == '-');
}

/// The target of a record is the instant that its text gives.
pub proof fn law_state_target(state: AlarmStateView, target: UtcTime, message: Seq<char>)
    ensures
        calendar::utc_reading(state.target_utc) == Ok::<UtcTime, Seq<char>>(target) ==> state_target(
            state,
        ) == Ok::<UtcTime, Seq<char>>(target),
        calendar::utc_reading(state.target_utc) == Err::<UtcTime, Seq<char>>(message)
            ==> state_target(state) == Err::<UtcTime, Seq<char>>(
            "invalid stored target time"@ + " `"@ + state.target_utc + "`: "@ + message,
        ),
{
}

proof fn lemma_record_directory()
    ensures
        paths::bytes_of("/.config/tix/alarms/"@) == paths::bytes_of("/.config/tix"@).push(47)
            + paths::bytes_of("alarms"@).push(47),
{
    reveal_strlit("/.config/tix/alarms/");
    reveal_strlit("/.config/tix");
    reveal_strlit("alarms");
    paths::lemma_ascii_bytes("/.config/tix/alarms/"@);
    paths::lemma_ascii_bytes("/.config/tix"@);
    paths::lemma_ascii_bytes("alarms"@);
    let (whole, front, back) = (
        paths::bytes_of("/.config/tix/alarms/"@),
        paths::bytes_of("/.config/tix"@),
        paths::bytes_of("alarms"@),
    );
    assert forall|i: int| 0 <= i < whole.len() implies #[trigger] whole[i] == (front.push(47)
        + back.push(47))[i] by {
        assert(whole[i] == "/.config/tix/alarms/"@[i] as u32);
        if i < 12 {
            assert("/.config/tix/alarms/"@[i] == "/.config/tix"@[i]);
        } else if 13 <= i < 19 {
            assert("/.config/tix/alarms/"@[i] == "alarms"@[i - 13]);
        }
    }
}

/// Records are kept in files of their own in one directory below the home directory, and without a
/// home directory nowhere.
pub proof fn law_record_place(alarm_id: Seq<char>, home: Seq<u8>)
    requires
        home.len() > 0,
        home.last() != 47,
        alarm_id.len() > 0,
        alarm_id[0] != '/',
    ensures
        state_file(alarm_id, Some(home)) == Ok::<Seq<u8>, Seq<char>>(
            home + paths::bytes_of("/.config/tix/alarms/"@ + alarm_id + ".toml"@),
        ),
        state_file(alarm_id, None) is Err,
{
    reveal_strlit("/.config/tix/alarms/");
    reveal_strlit("alarms");
    reveal_strlit(".toml");
    let name = alarm_id + ".toml"@;
    config::lemma_config_root(home);
    let root = config::root_below(Some(home))->Ok_0;
    paths::lemma_text_path_is_relative("alarms"@);
    paths::lemma_text_path_is_relative(name);
    paths::lemma_ascii_bytes("alarms"@);
    assert(root.last() == 120);
    let place = paths::joined(root, paths::bytes_of("alarms"@));
    assert(place == root.push(47) + paths::bytes_of("alarms"@));
    assert(place.last() == paths::bytes_of("alarms"@)[5]);
    assert(paths::bytes_of("alarms"@)[5] == 115);
    paths::lemma_bytes_of_concatenation("/.config/tix/alarms/"@, name);
    lemma_record_directory();
    assert("/.config/tix/alarms/"@ + alarm_id + ".toml"@ =~= "/.config/tix/alarms/"@ + name);
    assert(place.push(47) + paths::bytes_of(name) =~= home + (paths::bytes_of(
        "/.config/tix/alarms/"@,
    ) + paths::bytes_of(name)));
}

/// The file of a record is known as one by its name.
pub proof fn law_record_files_are_known(alarm_id: Seq<char>)
    requires
        alarm_id.len() > 0,
    ensures
        names_record(paths::bytes_of(alarm_id + ".toml"@)),
{
    reveal_strlit(".toml");
    paths::lemma_bytes_of_text(alarm_id);
    paths::lemma_bytes_of_concatenation(alarm_id, ".toml"@);
    paths::lemma_ascii_bytes(".toml"@);
    let whole = paths::bytes_of(alarm_id + ".toml"@);
    assert(whole.skip(whole.len() - 5) =~= paths::bytes_of(".toml"@));
}

/// A file is that of a record exactly if its name ends so and has something in front of that.
pub proof fn law_names_of_records(name: Seq<u8>)
    ensures
        names_record(name) <==> name.len() > 5 && name[name.len() - 5] == 46 && name[name.len() - 4]
            == 116 && name[name.len() - 3] == 111 && name[name.len() - 2] == 109 && name[name.len()
            - 1] == 108,
{
    reveal_strlit(".toml");
    paths::lemma_ascii_bytes(".toml"@);
    if name.len() > 5 {
        let (tail, end) = (name.skip(name.len() - 5), paths::bytes_of(".toml"@));
        assert(end[0] == 46 && end[1] == 116 && end[2] == 111 && end[3] == 109 && end[4] == 108);
        assert(tail[0] == name[name.len() - 5] && tail[1] == name[name.len() - 4] && tail[2]
            == name[name.len() - 3] && tail[3] == name[name.len() - 2] && tail[4] == name[name.len()
            - 1]);
        if tail[0] == 46 && tail[1] == 116 && tail[2] == 111 && tail[3] == 109 && tail[4] == 108 {
            assert(tail =~= end);
        }
    }
}

/// Stopping succeeds if the signal was delivered or the process is gone, and is refused otherwise
/// with the number of the process and the message.
pub proof fn law_stop_answers(pid: u32, outcome: SignalOutcome, message: Seq<char>)
    ensures
        stop_answer(pid, outcome, message) is Ok <==> outcome == SignalOutcome::Delivered || outcome
            == SignalOutcome::NoProcess,
        stop_answer(pid, outcome, message) matches Err(refusal) ==> refusal
            == "failed to stop alarm worker "@ + text::decimal(pid as int) + ": "@ + message,
{
}

/// A process is alive if it could be signalled or must not be, is not if there is none, and nothing
/// is known if the look failed.
pub proof fn law_life_answers(pid: u32, outcome: SignalOutcome, message: Seq<char>)
    ensures
        life_answer(pid, outcome, message) == Ok::<bool, Seq<char>>(true) <==> outcome
            == SignalOutcome::Delivered || outcome == SignalOutcome::NotPermitted,
        life_answer(pid, outcome, message) == Ok::<bool, Seq<char>>(false) <==> outcome
            == SignalOutcome::NoProcess,
        outcome == SignalOutcome::Failed ==> life_answer(pid, outcome, message) == Err::<
            bool,
            Seq<char>,
        >("failed to inspect process "@ + text::decimal(pid as int) + ": "@ + message),
{
}

/// A background alarm is under way only once its worker was found running, its record is taken away
/// only once the worker was found not to run, a worker is stopped only if its record could not be
/// saved, and whatever fails on the way is what is said.
pub proof fn law_start_of_an_alarm(event: StartEvent, action: StartAction)
    requires
        start_follows(event, action),
    ensures
        action is Done <==> (event matches StartEvent::Inspected(runs) && runs),
        action is Clear <==> (event matches StartEvent::Inspected(runs) && !runs),
        action is Inspect <==> event is Saved,
        action is StopAndGiveUp <==> event is NotSaved,
        event matches StartEvent::NotSaved(message) ==> (action matches StartAction::StopAndGiveUp(
            refusal,
        ) && refusal@ == message@),
        event matches StartEvent::NotInspected(message) ==> (action matches StartAction::GiveUp(
            refusal,
        ) && refusal@ == message@),
        event matches StartEvent::NotCleared(message) ==> (action matches StartAction::GiveUp(
            refusal,
        ) && refusal@ == message@),
        event is Cleared ==> (action matches StartAction::GiveUp(refusal) && refusal@
            == "background alarm worker exited before it could be tracked"@),
{
}

/// A yes and a no are written as words that read as them.
pub proof fn law_bool_words_read_back(value: bool)
    ensures
        config::bool_reading(bool_word(value)) == Ok::<bool, Seq<char>>(value),
{
    lemma_bool_reads_back(value);
}

/// The views of a list of records are those of its items, one for one.
pub proof fn law_records(list: Seq<ActiveAlarmState>, i: int)
    requires
        0 <= i < list.len(),
    ensures
        records(list).len() == list.len(),
        records(list)[i] == list[i]@,
{
}

} // verus!
