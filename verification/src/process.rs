//! Whether a process runs one of the background alarms, by its executable and its arguments.
use vstd::prelude::*;
use vstd::string::*;

use crate::bytes;
use crate::paths;
use crate::state;
use crate::text;
use crate::types::{self, AlarmNotificationConfig, AppResult};

verus! {

/// A path together with the path that it resolves to, if it does.
#[derive(Debug)]
pub struct ResolvedPath {
    pub path: Vec<u8>,
    pub canonical: Option<Vec<u8>>,
}

/// The view of a `ResolvedPath`.
pub struct ResolvedPathView {
    pub path: Seq<u8>,
    pub canonical: Option<Seq<u8>>,
}

impl View for ResolvedPath {
    type V = ResolvedPathView;

    open spec fn view(&self) -> ResolvedPathView {
        ResolvedPathView {
            path: self.path@,
            canonical: match self.canonical {
                Some(canonical) => Some(canonical@),
                None => None,
            },
        }
    }
}

/// Whether two paths lead to the same file: they have the same parts, or they resolve to paths that
/// have.
pub open spec fn leads_alike(left: ResolvedPathView, right: ResolvedPathView) -> bool {
    ||| paths::same_parts(left.path, right.path)
    ||| (left.canonical is Some && right.canonical is Some && paths::same_parts(
        left.canonical->0,
        right.canonical->0,
    ))
}

/// Tells whether two paths lead to the same file.
pub fn paths_equivalent(left: &ResolvedPath, right: &ResolvedPath) -> (r: bool)
    ensures
        r == leads_alike(left@, right@),
{
    if paths::equal(left.path.as_slice(), right.path.as_slice()) {
        return true;
    }
    match (&left.canonical, &right.canonical) {
        (Some(a), Some(b)) => paths::equal(a.as_slice(), b.as_slice()),
        _ => false,
    }
}

/// The strings of a command line: the stretches between zero bytes that are not empty.
pub open spec fn command_line(raw: Seq<u8>) -> Seq<Seq<u8>> {
    text::pieces(raw, text::equal_to(0u8)).filter(bytes::filled_and_not(Seq::empty()))
}

/// Splits a command line into its strings.
pub fn split_nul_terminated(raw: &[u8]) -> (r: Vec<Vec<u8>>)
    ensures
        bytes::byte_strings(r@) == command_line(raw@),
{
    let all = bytes::split_bytes(raw, 0);
    let nothing: Vec<u8> = Vec::new();
    assert(nothing@ =~= Seq::<u8>::empty());
    bytes::without(&all, nothing.as_slice())
}

/// The executable that a command line names first, if it names one.
pub fn cmdline_executable(raw: &[u8]) -> (r: Option<Vec<u8>>)
    ensures
        match r {
            Some(path) => command_line(raw@).len() > 0 && path@ == command_line(raw@)[0],
            None => command_line(raw@).len() == 0,
        },
{
    let parts = split_nul_terminated(raw);
    assert(bytes::byte_strings(parts@).len() == parts@.len());
    if parts.len() == 0 {
        return None;
    }
    assert(bytes::byte_strings(parts@)[0] == parts@[0]@);
    Some(bytes::copy(parts[0].as_slice()))
}

/// The view of an optional identifier.
pub open spec fn optional_id(id: Option<&str>) -> Option<Seq<char>> {
    match id {
        Some(id) => Some(id@),
        None => None,
    }
}

/// Whether one of the strings from index 1 on is the given one.
pub open spec fn has_argument(arguments: Seq<Seq<u8>>, wanted: Seq<u8>) -> bool {
    exists|i: int| 1 <= i < arguments.len() && #[trigger] arguments[i] == wanted
}

fn contains_argument(arguments: &Vec<Vec<u8>>, wanted: &[u8]) -> (r: bool)
    ensures
        r == has_argument(bytes::byte_strings(arguments@), wanted@),
{
    let ghost all = bytes::byte_strings(arguments@);
    let mut i: usize = 1;
    while i < arguments.len()
        invariant
            all == bytes::byte_strings(arguments@),
            1 <= i,
            forall|j: int| 1 <= j < i && j < all.len() ==> #[trigger] all[j] != wanted@,
        decreases arguments@.len() - i,
    {
        assert(all[i as int] == arguments@[i as int]@);
        if text::same_bytes(arguments[i].as_slice(), wanted) {
            return true;
        }
        i = i + 1;
    }
    false
}

/// Whether a command line is that of a worker of this program: it names the executable first, then
/// somewhere the marker of a worker, and somewhere the identifier of the alarm if one is wanted.
/// `canonical` is what the first string of the command line resolves to.
pub open spec fn command_line_matches(
    raw: Seq<u8>,
    canonical: Option<Seq<u8>>,
    expected: ResolvedPathView,
    alarm_id: Option<Seq<char>>,
) -> bool {
    let parts = command_line(raw);
    &&& parts.len() > 0
    &&& leads_alike(ResolvedPathView { path: parts[0], canonical }, expected)
    &&& has_argument(parts, paths::bytes_of("__worker"@))
    &&& alarm_id matches Some(id) ==> has_argument(parts, paths::bytes_of(id))
}

/// Tells whether a command line is that of a worker of this program.
pub fn cmdline_matches_worker(
    raw: &[u8],
    canonical: Option<Vec<u8>>,
    expected_executable: &ResolvedPath,
    alarm_id: Option<&str>,
) -> (r: bool)
    ensures
        r == command_line_matches(
            raw@,
            match canonical {
                Some(path) => Some(path@),
                None => None,
            },
            expected_executable@,
            optional_id(alarm_id),
        ),
{
    let parts = split_nul_terminated(raw);
    assert(bytes::byte_strings(parts@).len() == parts@.len());
    if parts.len() == 0 {
        return false;
    }
    assert(bytes::byte_strings(parts@)[0] == parts@[0]@);
    let executable = ResolvedPath { path: bytes::copy(parts[0].as_slice()), canonical };
    if !paths_equivalent(&executable, expected_executable) {
        return false;
    }
    if !contains_argument(&parts, "__worker".as_bytes()) {
        return false;
    }
    match alarm_id {
        Some(id) => contains_argument(&parts, id.as_bytes()),
        None => true,
    }
}

/// The string in front of the first zero byte and what follows that byte, if there is one.
pub open spec fn terminated(raw: Seq<u8>) -> Option<(Seq<u8>, Seq<u8>)> {
    let at = text::index_where(raw, text::equal_to(0u8));
    if at < raw.len() {
        Some((raw.take(at), raw.skip(at + 1)))
    } else {
        None
    }
}

/// Finds the string in front of the first zero byte and what follows that byte.
fn next_nul_terminated<'a>(raw: &'a [u8]) -> (r: Option<(&'a [u8], &'a [u8])>)
    ensures
        terminated(raw@) == match r {
            Some(sides) => Some((sides.0@, sides.1@)),
            None => None,
        },
{
    let mut at: usize = 0;
    while at < raw.len() && raw[at] != 0
        invariant
            at <= raw@.len(),
            forall|j: int| 0 <= j < at ==> !text::equal_to(0u8)(#[trigger] raw@[j]),
        decreases raw@.len() - at,
    {
        at = at + 1;
    }
    proof {
        text::lemma_index_where(raw@, text::equal_to(0u8), at as int);
    }
    if at == raw.len() {
        return None;
    }
    let front = vstd::slice::slice_subrange(raw, 0, at);
    let back = vstd::slice::slice_subrange(raw, at + 1, raw.len());
    assert(front@ =~= raw@.take(at as int));
    assert(back@ =~= raw@.skip(at + 1));
    Some((front, back))
}

/// The bytes without the zero bytes that they begin with.
pub open spec fn after_padding(raw: Seq<u8>) -> Seq<u8>
    decreases raw.len(),
{
    if raw.len() > 0 && raw[0] == 0 {
        after_padding(raw.skip(1))
    } else {
        raw
    }
}

fn skip_padding<'a>(raw: &'a [u8]) -> (r: &'a [u8])
    ensures
        r@ == after_padding(raw@),
{
    let mut at: usize = 0;
    assert(raw@.skip(0) =~= raw@);
    while at < raw.len() && raw[at] == 0
        invariant
            at <= raw@.len(),
            after_padding(raw@) == after_padding(raw@.skip(at as int)),
        decreases raw@.len() - at,
    {
        assert(raw@.skip(at as int).skip(1) =~= raw@.skip(at + 1));
        at = at + 1;
    }
    let rest = vstd::slice::slice_subrange(raw, at, raw.len());
    assert(rest@ =~= raw@.skip(at as int));
    rest
}

/// The first `count` strings, if there are that many.
pub open spec fn strings_in(raw: Seq<u8>, count: int) -> Option<Seq<Seq<u8>>>
    decreases count,
{
    if count <= 0 {
        Some(Seq::empty())
    } else {
        match terminated(raw) {
            Some(sides) => match strings_in(sides.1, count - 1) {
                Some(more) => Some(seq![sides.0] + more),
                None => None,
            },
            None => None,
        }
    }
}

/// `done` in front of what is still to come.
spec fn strings_after(done: Seq<Seq<u8>>, rest: Option<Seq<Seq<u8>>>) -> Option<Seq<Seq<u8>>> {
    match rest {
        Some(more) => Some(done + more),
        None => None,
    }
}

fn split_strings(raw: &[u8], count: u32) -> (r: Option<Vec<Vec<u8>>>)
    ensures
        strings_in(raw@, count as int) == match r {
            Some(strings) => Some(bytes::byte_strings(strings@)),
            None => None,
        },
{
    let mut out: Vec<Vec<u8>> = Vec::new();
    let mut rest = raw;
    let mut left: u32 = count;
    proof {
        let all = strings_in(raw@, count as int);
        assert(all is Some ==> bytes::byte_strings(out@) + all->0 =~= all->0);
    }
    while left > 0
        invariant
            strings_in(raw@, count as int) == strings_after(
                bytes::byte_strings(out@),
                strings_in(rest@, left as int),
            ),
        decreases left,
    {
        let ghost before = bytes::byte_strings(out@);
        match next_nul_terminated(rest) {
            Some((string, more)) => {
                out.push(bytes::copy(string));
                proof {
                    assert(bytes::byte_strings(out@) =~= before.push(string@));
                    let tail = strings_in(more@, left - 1);
                    assert(tail is Some ==> before + (seq![string@] + tail->0) =~= before.push(
                        string@,
                    ) + tail->0);
                }
                rest = more;
                left = left - 1;
            },
            None => {
                return None;
            },
        }
    }
    assert(bytes::byte_strings(out@) + Seq::<Seq<u8>>::empty() =~= bytes::byte_strings(out@));
    Some(out)
}

/// The number of arguments that stands in front of the arguments of a process on macOS: a signed
/// number of four bytes, the lowest first.
pub open spec fn argument_count(raw: Seq<u8>) -> int {
    let unsigned = raw[0] + raw[1] * 0x100 + raw[2] * 0x1_0000 + raw[3] * 0x100_0000;
    if unsigned < 0x8000_0000 {
        unsigned
    } else {
        unsigned - 0x1_0000_0000
    }
}

/// The arguments of a process as macOS hands them out: their number, the path of the executable,
/// padding, and then the arguments themselves.
pub open spec fn process_arguments(raw: Seq<u8>) -> Option<Seq<Seq<u8>>> {
    if raw.len() < 4 || argument_count(raw) < 1 {
        None
    } else {
        match terminated(raw.skip(4)) {
            Some(sides) => strings_in(after_padding(sides.1), argument_count(raw)),
            None => None,
        }
    }
}

/// Splits the arguments of a process as macOS hands them out.
pub fn split_process_arguments(raw: &[u8]) -> (r: Option<Vec<Vec<u8>>>)
    ensures
        process_arguments(raw@) == match r {
            Some(strings) => Some(bytes::byte_strings(strings@)),
            None => None,
        },
        r matches Some(strings) ==> strings@.len() > 0,
{
    if raw.len() < 4 {
        return None;
    }
    let count: u32 = raw[0] as u32 + raw[1] as u32 * 0x100 + raw[2] as u32 * 0x1_0000
        + raw[3] as u32 * 0x100_0000;
    if count < 1 || count >= 0x8000_0000 {
        return None;
    }
    let rest = vstd::slice::slice_subrange(raw, 4, raw.len());
    assert(rest@ =~= raw@.skip(4));
    match next_nul_terminated(rest) {
        Some((_, padded)) => {
            let arguments = split_strings(skip_padding(padded), count);
            proof {
                assert(arguments matches Some(strings) ==> bytes::byte_strings(strings@).len()
                    == strings@.len());
            }
            arguments
        },
        None => None,
    }
}

/// Whether the arguments of a process are those of a worker of this program: they name the
/// executable first, then somewhere the marker of a worker, and somewhere else the identifier of
/// the alarm if one is wanted. `canonical` is what the first argument resolves to.
pub open spec fn arguments_match(
    raw: Seq<u8>,
    canonical: Option<Seq<u8>>,
    expected: ResolvedPathView,
    alarm_id: Option<Seq<char>>,
) -> bool {
    &&& process_arguments(raw) is Some
    &&& leads_alike(
        ResolvedPathView { path: process_arguments(raw)->0[0], canonical },
        expected,
    )
    &&& has_argument(process_arguments(raw)->0, paths::bytes_of("__worker"@))
    &&& alarm_id matches Some(id) ==> paths::bytes_of(id) != paths::bytes_of("__worker"@)
        && has_argument(process_arguments(raw)->0, paths::bytes_of(id))
}

/// Tells whether the arguments of a process, as macOS hands them out, are those of a worker of this
/// program.
pub fn macos_procargs_match_worker(
    raw: &[u8],
    canonical: Option<Vec<u8>>,
    expected_executable: &ResolvedPath,
    alarm_id: Option<&str>,
) -> (r: bool)
    ensures
        r == arguments_match(
            raw@,
            match canonical {
                Some(path) => Some(path@),
                None => None,
            },
            expected_executable@,
            optional_id(alarm_id),
        ),
{
    let arguments = match split_process_arguments(raw) {
        Some(arguments) => arguments,
        None => {
            return false;
        },
    };
    assert(bytes::byte_strings(arguments@)[0] == arguments@[0]@);
    let executable = ResolvedPath { path: bytes::copy(arguments[0].as_slice()), canonical };
    if !paths_equivalent(&executable, expected_executable) {
        return false;
    }
    if !contains_argument(&arguments, "__worker".as_bytes()) {
        return false;
    }
    match alarm_id {
        Some(id) => !text::same_bytes(id.as_bytes(), "__worker".as_bytes()) && contains_argument(
            &arguments,
            id.as_bytes(),
        ),
        None => true,
    }
}

/// The executable that the arguments of a process name first, if they can be read.
pub fn procargs_executable(raw: &[u8]) -> (r: Option<Vec<u8>>)
    ensures
        match r {
            Some(path) => process_arguments(raw@) matches Some(strings) && path@ == strings[0],
            None => process_arguments(raw@) is None,
        },
{
    match split_process_arguments(raw) {
        Some(arguments) => {
            assert(bytes::byte_strings(arguments@)[0] == arguments@[0]@);
            Some(bytes::copy(arguments[0].as_slice()))
        },
        None => None,
    }
}

/// What a look at a process found.
#[derive(Debug)]
pub enum Inspection {
    /// What was looked for is there, or is not.
    Found(bool),
    /// The process is gone.
    Gone,
    /// The look failed with a message.
    Failed(String),
}

/// What a look at a process answers: a process that is gone is no worker.
pub open spec fn inspection_answer(inspection: Inspection, failure: Seq<char>) -> Result<
    bool,
    Seq<char>,
> {
    match inspection {
        Inspection::Found(found) => Ok(found),
        Inspection::Gone => Ok(false),
        Inspection::Failed(message) => Err(failure + message@),
    }
}

/// Answers for a look at a process.
pub fn answer_inspection(inspection: Inspection, failure: &str) -> (r: AppResult<bool>)
    ensures
        types::outcome(r) == inspection_answer(inspection, failure@),
{
    match inspection {
        Inspection::Found(found) => Ok(found),
        Inspection::Gone => Ok(false),
        Inspection::Failed(message) => Err(text::concat2(failure, message.as_str())),
    }
}

/// What is looked at of a process.
#[derive(Clone, Copy, Debug, PartialEq, Eq, Structural)]
pub enum Aspect {
    Executable,
    /// The command line, in the file that Linux has for it.
    CommandLine,
    /// The arguments, as macOS hands them out.
    Arguments,
}

/// How the message of a look that failed begins.
pub open spec fn failure_of(aspect: Aspect, pid: u32) -> Seq<char> {
    match aspect {
        Aspect::Executable => "failed to inspect process executable for "@ + text::decimal(
            pid as int,
        ) + ": "@,
        Aspect::CommandLine => "failed to inspect process command line /proc/"@ + text::decimal(
            pid as int,
        ) + "/cmdline: "@,
        Aspect::Arguments => "failed to inspect process arguments for "@ + text::decimal(pid as int)
            + ": "@,
    }
}

/// Answers for a look at one aspect of a process.
pub fn inspect_process(aspect: Aspect, pid: u32, inspection: Inspection) -> (r: AppResult<bool>)
    ensures
        types::outcome(r) == inspection_answer(inspection, failure_of(aspect, pid)),
{
    let number = text::decimal_text(pid as u64);
    let failure = match aspect {
        Aspect::Executable => text::concat3(
            "failed to inspect process executable for ",
            number.as_str(),
            ": ",
        ),
        Aspect::CommandLine => text::concat3(
            "failed to inspect process command line /proc/",
            number.as_str(),
            "/cmdline: ",
        ),
        Aspect::Arguments => text::concat3(
            "failed to inspect process arguments for ",
            number.as_str(),
            ": ",
        ),
    };
    answer_inspection(inspection, failure.as_str())
}

/// The strings with a zero byte behind each of them, as a process has its command line.
pub open spec fn nul_terminated(strings: Seq<Seq<u8>>) -> Seq<u8>
    decreases strings.len(),
{
    if strings.len() == 0 {
        Seq::empty()
    } else {
        strings[0].push(0) + nul_terminated(strings.skip(1))
    }
}

/// A command line gives back the strings that it was made of, without the empty ones.
pub proof fn law_command_line_reads_back(strings: Seq<Seq<u8>>)
    requires
        forall|i: int| 0 <= i < strings.len() ==> !(#[trigger] strings[i]).contains(0),
    ensures
        command_line(nul_terminated(strings)) == strings.filter(
            bytes::filled_and_not(Seq::empty()),
        ),
    decreases strings.len(),
{
    let keep = bytes::filled_and_not(Seq::<u8>::empty());
    let p = text::equal_to(0u8);
    let raw = nul_terminated(strings);
    if strings.len() == 0 {
        assert(text::pieces(raw, p) == seq![raw]);
        text::lemma_filter_first(raw, Seq::<Seq<u8>>::empty(), keep);
        assert(seq![raw] + Seq::<Seq<u8>>::empty() =~= seq![raw]);
        assert(Seq::<Seq<u8>>::empty().filter(keep) =~= Seq::<Seq<u8>>::empty()) by {
            reveal(Seq::filter);
        }
        assert(strings =~= Seq::<Seq<u8>>::empty());
    } else {
        let first = strings[0];
        let rest = strings.skip(1);
        assert forall|i: int| 0 <= i < rest.len() implies !(#[trigger] rest[i]).contains(0) by {
            assert(rest[i] == strings[i + 1]);
        }
        law_command_line_reads_back(rest);
        let at = first.len() as int;
        assert forall|j: int| 0 <= j < at implies !p(#[trigger] raw[j]) by {
            assert(raw[j] == first[j]);
        }
        assert(raw[at] == 0);
        text::lemma_pieces_step(raw, p, 0, at);
        assert(raw.skip(0) =~= raw);
        assert(raw.subrange(0, at) =~= first);
        assert(raw.skip(at + 1) =~= nul_terminated(rest));
        text::lemma_filter_first(first, text::pieces(nul_terminated(rest), p), keep);
        text::lemma_filter_first(first, rest, keep);
        assert(strings =~= seq![first] + rest);
    }
}

/// The strings of the command line of a worker: its executable, and the words it is called with.
pub open spec fn worker_strings(executable: Seq<u8>, line: Seq<Seq<char>>) -> Seq<Seq<u8>> {
    seq![executable] + line.map_values(|word: Seq<char>| paths::bytes_of(word))
}

/// A worker that runs from the executable that is expected, and was called to run an alarm, is
/// found to be the worker of that alarm.
pub proof fn law_worker_is_recognized(
    expected: ResolvedPathView,
    canonical: Option<Seq<u8>>,
    alarm_id: Seq<char>,
    target: Seq<char>,
    auto_stop_seconds: u64,
    volume: Seq<char>,
    sound_file: Option<Seq<char>>,
    notifications: AlarmNotificationConfig,
)
    requires
        expected.path.len() > 0,
        !expected.path.contains(0),
        alarm_id.len() > 0,
        ({
            let line = state::worker_line(
                alarm_id,
                target,
                auto_stop_seconds,
                volume,
                sound_file,
                notifications,
            );
            forall|i: int| 0 <= i < line.len() ==> !(#[trigger] line[i]).contains('\0')
        }),
    ensures
        command_line_matches(
            nul_terminated(
                worker_strings(
                    expected.path,
                    state::worker_line(
                        alarm_id,
                        target,
                        auto_stop_seconds,
                        volume,
                        sound_file,
                        notifications,
                    ),
                ),
            ),
            canonical,
            expected,
            Some(alarm_id),
        ),
{
    let line = state::worker_line(
        alarm_id,
        target,
        auto_stop_seconds,
        volume,
        sound_file,
        notifications,
    );
    let words = line.map_values(|word: Seq<char>| paths::bytes_of(word));
    let strings = worker_strings(expected.path, line);
    let keep = bytes::filled_and_not(Seq::<u8>::empty());
    assert forall|i: int| 0 <= i < strings.len() implies !(#[trigger] strings[i]).contains(0) by {
        if i > 0 {
            assert(strings[i] == paths::bytes_of(line[i - 1]));
            paths::lemma_bytes_without_nul(line[i - 1]);
        }
    }
    law_command_line_reads_back(strings);
    text::lemma_filter_first(expected.path, words, keep);
    let parts = command_line(nul_terminated(strings));
    let kept = words.filter(keep);
    assert(keep(expected.path));
    assert(parts == seq![expected.path] + kept);
    assert(line[0] == "__worker"@ && line[2] == alarm_id);
    reveal_strlit("__worker");
    paths::lemma_bytes_of_text("__worker"@);
    paths::lemma_bytes_of_text(alarm_id);
    assert(words[0] == paths::bytes_of("__worker"@) && keep(words[0]));
    assert(words[2] == paths::bytes_of(alarm_id) && keep(words[2]));
    words.lemma_filter_contains(keep, 0);
    words.lemma_filter_contains(keep, 2);
    let i = choose|i: int| 0 <= i < kept.len() && kept[i] == words[0];
    assert(parts[i + 1] == words[0]);
    let j = choose|j: int| 0 <= j < kept.len() && kept[j] == words[2];
    assert(parts[j + 1] == words[2]);
}

proof fn lemma_strings_read_back(strings: Seq<Seq<u8>>, rest: Seq<u8>)
    requires
        forall|i: int| 0 <= i < strings.len() ==> !(#[trigger] strings[i]).contains(0),
    ensures
        strings_in(nul_terminated(strings) + rest, strings.len() as int) == Some(strings),
    decreases strings.len(),
{
    if strings.len() == 0 {
        assert(strings =~= Seq::<Seq<u8>>::empty());
    } else {
        let first = strings[0];
        let more = strings.skip(1);
        assert forall|i: int| 0 <= i < more.len() implies !(#[trigger] more[i]).contains(0) by {
            assert(more[i] == strings[i + 1]);
        }
        lemma_strings_read_back(more, rest);
        let raw = nul_terminated(strings) + rest;
        let p = text::equal_to(0u8);
        let at = first.len() as int;
        assert forall|j: int| 0 <= j < at implies !p(#[trigger] raw[j]) by {
            assert(raw[j] == first[j]);
        }
        assert(raw[at] == 0);
        text::lemma_index_where(raw, p, at);
        assert(raw.take(at) =~= first);
        assert(raw.skip(at + 1) =~= nul_terminated(more) + rest);
        assert(strings =~= seq![first] + more);
    }
}

proof fn lemma_padding(zeros: nat, rest: Seq<u8>)
    requires
        rest.len() > 0,
        rest[0] != 0,
    ensures
        after_padding(Seq::new(zeros, |i: int| 0u8) + rest) == rest,
    decreases zeros,
{
    let padded = Seq::new(zeros, |i: int| 0u8) + rest;
    if zeros == 0 {
        assert(padded =~= rest);
    } else {
        let fewer = (zeros - 1) as nat;
        lemma_padding(fewer, rest);
        assert(padded.skip(1) =~= Seq::new(fewer, |i: int| 0u8) + rest);
    }
}

/// What macOS hands out for a process gives back its arguments, whatever follows them, if the first
/// of them is not empty.
pub proof fn law_process_arguments_read_back(
    count: Seq<u8>,
    executable: Seq<u8>,
    zeros: nat,
    arguments: Seq<Seq<u8>>,
    rest: Seq<u8>,
)
    requires
        count.len() == 4,
        argument_count(count) == arguments.len(),
        arguments.len() > 0,
        arguments[0].len() > 0,
        !executable.contains(0),
        forall|i: int| 0 <= i < arguments.len() ==> !(#[trigger] arguments[i]).contains(0),
    ensures
        process_arguments(
            count + executable.push(0) + Seq::new(zeros, |i: int| 0u8) + nul_terminated(arguments)
                + rest,
        ) == Some(arguments),
{
    let tail = nul_terminated(arguments) + rest;
    let padded = Seq::new(zeros, |i: int| 0u8) + tail;
    let raw = count + executable.push(0) + Seq::new(zeros, |i: int| 0u8) + nul_terminated(arguments)
        + rest;
    assert(raw =~= count + (executable.push(0) + padded));
    let body = raw.skip(4);
    assert(body =~= executable.push(0) + padded);
    let p = text::equal_to(0u8);
    let at = executable.len() as int;
    assert forall|j: int| 0 <= j < at implies !p(#[trigger] body[j]) by {
        assert(body[j] == executable[j]);
    }
    assert(body[at] == 0);
    text::lemma_index_where(body, p, at);
    assert(body.skip(at + 1) =~= padded);
    assert(tail[0] == arguments[0][0]);
    lemma_padding(zeros, tail);
    lemma_strings_read_back(arguments, rest);
    assert(raw[0] == count[0] && raw[1] == count[1] && raw[2] == count[2] && raw[3] == count[3]);
}

/// Whether one of the strings behind the first is the given one.
pub open spec fn stands_behind(strings: Seq<Seq<u8>>, wanted: Seq<u8>) -> bool {
    exists|i: int| 0 < i < strings.len() && #[trigger] strings[i] == wanted
}

proof fn lemma_filled_strings(strings: Seq<Seq<u8>>)
    requires
        forall|i: int| 0 <= i < strings.len() ==> (#[trigger] strings[i]).len() > 0,
    ensures
        strings.filter(bytes::filled_and_not(Seq::empty())) == strings,
    decreases strings.len(),
{
    let keep = bytes::filled_and_not(Seq::<u8>::empty());
    reveal(Seq::filter);
    if strings.len() > 0 {
        let front = strings.drop_last();
        assert forall|i: int| 0 <= i < front.len() implies (#[trigger] front[i]).len() > 0 by {
            assert(front[i] == strings[i]);
        }
        lemma_filled_strings(front);
        assert(strings[strings.len() - 1].len() > 0);
        assert(keep(strings.last()));
        assert(front.push(strings.last()) =~= strings);
    } else {
        assert(strings =~= Seq::<Seq<u8>>::empty());
    }
}

/// A process with a command line is taken for a worker exactly if its executable leads to the one
/// that is expected and the marker of a worker stands behind it, and for the worker of an alarm if
/// the identifier of that alarm does so too.
pub proof fn law_workers_are_told_apart(
    strings: Seq<Seq<u8>>,
    canonical: Option<Seq<u8>>,
    expected: ResolvedPathView,
    id: Seq<char>,
)
    requires
        strings.len() > 0,
        forall|i: int| 0 <= i < strings.len() ==> (#[trigger] strings[i]).len() > 0,
        forall|i: int| 0 <= i < strings.len() ==> !(#[trigger] strings[i]).contains(0),
    ensures
        ({
            let raw = nul_terminated(strings);
            let alike = leads_alike(ResolvedPathView { path: strings[0], canonical }, expected);
            let marked = stands_behind(strings, paths::bytes_of("__worker"@));
            &&& command_line_matches(raw, canonical, expected, None) <==> alike && marked
            &&& command_line_matches(raw, canonical, expected, Some(id)) <==> alike && marked
                && stands_behind(strings, paths::bytes_of(id))
        }),
{
    law_command_line_reads_back(strings);
    lemma_filled_strings(strings);
    lemma_stands_behind(strings, paths::bytes_of("__worker"@));
    lemma_stands_behind(strings, paths::bytes_of(id));
}

proof fn lemma_stands_behind(strings: Seq<Seq<u8>>, wanted: Seq<u8>)
    ensures
        has_argument(strings, wanted) <==> stands_behind(strings, wanted),
{
    if stands_behind(strings, wanted) {
        let i = choose|i: int| 0 < i < strings.len() && #[trigger] strings[i] == wanted;
        assert(1 <= i && strings[i] == wanted);
    }
    if has_argument(strings, wanted) {
        let i = choose|i: int| 1 <= i < strings.len() && #[trigger] strings[i] == wanted;
        assert(0 < i && strings[i] == wanted);
    }
}

/// The same holds of the arguments of a process as macOS hands them out, but that no alarm has the
/// marker of a worker for its identifier.
pub proof fn law_workers_are_told_apart_by_arguments(
    raw: Seq<u8>,
    arguments: Seq<Seq<u8>>,
    canonical: Option<Seq<u8>>,
    expected: ResolvedPathView,
    id: Seq<char>,
)
    requires
        process_arguments(raw) == Some(arguments),
    ensures
        ({
            let alike = leads_alike(ResolvedPathView { path: arguments[0], canonical }, expected);
            let marked = stands_behind(arguments, paths::bytes_of("__worker"@));
            &&& arguments_match(raw, canonical, expected, None) <==> alike && marked
            &&& arguments_match(raw, canonical, expected, Some(id)) <==> alike && marked && id
                != "__worker"@ && stands_behind(arguments, paths::bytes_of(id))
        }),
{
    lemma_stands_behind(arguments, paths::bytes_of("__worker"@));
    lemma_stands_behind(arguments, paths::bytes_of(id));
    vstd::utf8::encode_utf8_decode_utf8(id);
    vstd::utf8::encode_utf8_decode_utf8("__worker"@);
}

/// A process whose arguments cannot be read is no worker.
pub proof fn law_unreadable_arguments_are_no_worker(
    raw: Seq<u8>,
    canonical: Option<Seq<u8>>,
    expected: ResolvedPathView,
    id: Option<Seq<char>>,
)
    ensures
        process_arguments(raw) is None ==> !arguments_match(raw, canonical, expected, id),
        raw.len() < 4 ==> process_arguments(raw) is None,
        command_line(raw).len() == 0 ==> !command_line_matches(raw, canonical, expected, id),
{
}

/// The number of arguments is read from four bytes, the lowest first, and the highest bit makes it
/// negative.
pub proof fn law_argument_count(raw: Seq<u8>)
    requires
        raw.len() >= 4,
    ensures
        ({
            let sum = raw[0] + 256 * raw[1] + 65_536 * raw[2] + 16_777_216 * raw[3];
            argument_count(raw) == if raw[3] < 128 {
                sum
            } else {
                sum - 4_294_967_296
            }
        }),
{
}

/// Two paths lead to the same file if they are the same path or resolve to the same path, in either
/// order. A path that does not resolve leads only where it says.
pub proof fn law_paths_lead_alike(left: ResolvedPathView, right: ResolvedPathView)
    ensures
        paths::same_parts(left.path, right.path) ==> leads_alike(left, right),
        left.canonical is Some && right.canonical is Some && paths::same_parts(
            left.canonical->0,
            right.canonical->0,
        ) ==> leads_alike(left, right),
        left.path == right.path ==> leads_alike(left, right),
        left.canonical is Some && left.canonical == right.canonical ==> leads_alike(left, right),
        leads_alike(left, right) <==> leads_alike(right, left),
        left.canonical is None && !paths::same_parts(left.path, right.path) ==> !leads_alike(
            left,
            right,
        ),
        left.canonical is Some && right.canonical is Some && !paths::same_parts(
            left.path,
            right.path,
        ) && !paths::same_parts(left.canonical->0, right.canonical->0) ==> !leads_alike(
            left,
            right,
        ),
{
}

/// A look at a process answers what was found, that a process that is gone is none, and its failure
/// with what failed and for which process.
pub proof fn law_looks_at_processes(found: bool, failure: Seq<char>, message: String, pid: u32)
    ensures
        inspection_answer(Inspection::Found(found), failure) == Ok::<bool, Seq<char>>(found),
        inspection_answer(Inspection::Gone, failure) == Ok::<bool, Seq<char>>(false),
        inspection_answer(Inspection::Failed(message), failure) == Err::<bool, Seq<char>>(
            failure + message@,
        ),
        failure_of(Aspect::Executable, pid) == "failed to inspect process executable for "@
            + text::decimal(pid as int) + ": "@,
        failure_of(Aspect::CommandLine, pid) == "failed to inspect process command line /proc/"@
            + text::decimal(pid as int) + "/cmdline: "@,
        failure_of(Aspect::Arguments, pid) == "failed to inspect process arguments for "@
            + text::decimal(pid as int) + ": "@,
{
}

/// The view of a path together with what it resolves to shows both, and that of an identifier its
/// text.
pub proof fn law_process_views(resolved: ResolvedPath, id: &str)
    ensures
        resolved@.path == resolved.path@,
        match resolved.canonical {
            Some(path) => resolved@.canonical == Some(path@),
            None => resolved@.canonical is None,
        },
        optional_id(Some(id)) == Some(id@),
        optional_id(None) is None,
{
}

} // verus!
