//! What the command line shows while a scenario runs: worker output cut into
//! lines, tagged and buffered per worker, and the state of each worker.
use vstd::prelude::*;

use vstd::string::StringExecFns;

use crate::services::{InfoMessage, IterationInfo, RequestInfo};
use crate::time::Duration;
use crate::text::{lossy_utf8, chars_of, complete_lines, lemma_non_empty, lemma_split_newlines, non_empty, push_char, split_newlines, unfinished_line, utf8_lossy_text, decimal, push_decimal, lemma_lines_in_parts, lemma_split_no_newline, lemma_non_empty_is_filter};

verus! {

/// Takes the completed lines out of `buffer`.
///
/// A buffer without a newline is left as it is and gives `None`. Otherwise
/// the buffer keeps only the text after its last newline, and the non-empty
/// lines before it are returned, or `None` when they are all empty.
pub fn process_buffer(buffer: &mut String) -> (r: Option<Vec<String>>)
    ensures
        !old(buffer)@.contains('\n') ==> r is None && *final(buffer) == *old(buffer),
        old(buffer)@.contains('\n') ==> final(buffer)@ == unfinished_line(old(buffer)@),
        old(buffer)@.contains('\n') ==> if complete_lines(old(buffer)@).len() == 0 {
            r is None
        } else {
            r matches Some(lines) && lines.deep_view() == complete_lines(old(buffer)@)
        },
        r matches Some(lines) ==> lines.deep_view()
            == split_newlines(old(buffer)@).drop_last().filter(|p: Seq<char>| p.len() > 0),
        r is None ==> split_newlines(old(buffer)@).drop_last().filter(|p: Seq<char>| p.len() > 0).len() == 0,
{
    let chars = chars_of(buffer.as_str());
    let ghost all = chars@;
    let mut lines: Vec<String> = Vec::new();
    let mut current = String::new();
    let mut saw_newline = false;
    let mut i: usize = 0;
    proof {
        assert(all.take(0) =~= Seq::<char>::empty());
        assert(split_newlines(all.take(0)) =~= seq![Seq::<char>::empty()]);
        assert(split_newlines(all.take(0)).drop_last() =~= Seq::<Seq<char>>::empty());
        assert(lines.deep_view() =~= Seq::<Seq<char>>::empty());
    }
    while i < chars.len()
        invariant
            chars@ == all,
            0 <= i <= chars.len(),
            split_newlines(all.take(i as int)).len() >= 1,
            lines.deep_view() == non_empty(split_newlines(all.take(i as int)).drop_last()),
            current@ == split_newlines(all.take(i as int)).last(),
            saw_newline <==> split_newlines(all.take(i as int)).len() > 1,
        decreases chars.len() - i,
    {
        let c = chars[i];
        let ghost before = all.take(i as int);
        let ghost parts = split_newlines(before);
        proof {
            assert(all.take(i + 1).drop_last() =~= before);
            assert(all.take(i + 1).last() == c);
        }
        if c == '\n' {
            proof {
                assert(split_newlines(all.take(i + 1)) == parts.push(Seq::<char>::empty()));
                assert(parts.push(Seq::<char>::empty()).drop_last() =~= parts);
                assert(parts.drop_last().push(parts.last()) =~= parts);
            }
            if current.as_str().unicode_len() > 0 {
                let ghost old_lines = lines.deep_view();
                lines.push(current);
                assert(lines.deep_view() =~= old_lines.push(parts.last()));
            }
            current = String::new();
            saw_newline = true;
        } else {
            proof {
                let next = parts.update(parts.len() - 1, parts.last().push(c));
                assert(split_newlines(all.take(i + 1)) == next);
                assert(next.drop_last() =~= parts.drop_last());
            }
            push_char(&mut current, c);
        }
        i += 1;
    }
    proof {
        assert(all.take(chars.len() as int) =~= all);
        lemma_split_newlines(all);
        lemma_non_empty_is_filter(split_newlines(all).drop_last());
    }
    if !saw_newline {
        return None;
    }
    *buffer = current;
    if lines.len() == 0 {
        None
    } else {
        Some(lines)
    }
}

/// A buffer that has just been processed holds no newline, so processing it
/// again at once changes nothing and gives no lines.
pub proof fn lemma_process_buffer_settles(s: Seq<char>)
    requires
        s.contains('\n'),
    ensures
        !unfinished_line(s).contains('\n'),
{
    lemma_split_newlines(s);
    assert(split_newlines(s)[split_newlines(s).len() - 1] == unfinished_line(s));
}

/// Every line taken out of a buffer is non-empty and holds no newline.
pub proof fn lemma_complete_lines_are_lines(s: Seq<char>)
    ensures
        forall|i: int| 0 <= i < complete_lines(s).len() ==>
            (#[trigger] complete_lines(s)[i]).len() > 0 && !complete_lines(s)[i].contains('\n'),
{
    lemma_split_newlines(s);
    let parts = split_newlines(s).drop_last();
    lemma_non_empty(parts);
    assert forall|i: int| 0 <= i < complete_lines(s).len() implies
        (#[trigger] complete_lines(s)[i]).len() > 0 && !complete_lines(s)[i].contains('\n') by {
        let x = complete_lines(s)[i];
        assert(parts.contains(x));
        let j = choose|j: int| 0 <= j < parts.len() && parts[j] == x;
        assert(split_newlines(s)[j] == x);
    }
}

/// How a duration is shown: in the largest unit it reaches, with the part
/// below that unit kept to be shown as a two-decimal fraction, or, below one
/// microsecond, as whole nanoseconds.
#[derive(Debug, PartialEq, Eq)]
pub enum DurationDisplay {
    /// Whole seconds and the nanoseconds beyond them.
    Seconds { whole: u64, nanos: u32 },
    /// Whole milliseconds and the nanoseconds beyond them.
    Millis { whole: u128, nanos: u32 },
    /// Whole microseconds and the nanoseconds beyond them.
    Micros { whole: u128, nanos: u32 },
    /// The text of a duration below one microsecond.
    Nanos(String),
}

/// Chooses how to show a duration: seconds from one second on, then
/// milliseconds, then microseconds, and whole nanoseconds below that, which
/// are written out here (`"750ns"`); the other units are given as a whole
/// number and the nanoseconds beyond it.
pub fn format_duration(duration: Duration) -> (r: DurationDisplay)
    ensures
        duration@ >= 1_000_000_000 ==> r == (DurationDisplay::Seconds {
            whole: (duration@ / 1_000_000_000) as u64,
            nanos: (duration@ % 1_000_000_000) as u32,
        }),
        1_000_000 <= duration@ < 1_000_000_000 ==> r == (DurationDisplay::Millis {
            whole: (duration@ / 1_000_000) as u128,
            nanos: (duration@ % 1_000_000) as u32,
        }),
        1_000 <= duration@ < 1_000_000 ==> r == (DurationDisplay::Micros {
            whole: (duration@ / 1_000) as u128,
            nanos: (duration@ % 1_000) as u32,
        }),
        duration@ < 1_000 ==> (r matches DurationDisplay::Nanos(text) && text@ == decimal(duration@) + "ns"@),
{
    let secs = duration.as_secs();
    let total_millis = duration.as_millis();
    let total_micros = duration.as_micros();
    let nanos = duration.subsec_nanos();
    if secs > 0 {
        DurationDisplay::Seconds { whole: secs, nanos }
    } else if total_millis > 0 {
        DurationDisplay::Millis { whole: total_millis, nanos: nanos % 1_000_000 }
    } else if total_micros > 0 {
        DurationDisplay::Micros { whole: total_micros, nanos: nanos % 1_000 }
    } else {
        let mut text = String::new();
        push_decimal(&mut text, nanos as u64);
        text.append("ns");
        DurationDisplay::Nanos(text)
    }
}

/// What the command line knows about one worker during a run.
#[derive(Debug)]
pub struct WorkerState {
    pub active_instances: isize,
    pub capacity: isize,
    pub done: bool,
    pub duration: Duration,
    pub left: Duration,
    pub error: Option<String>,
}

impl Default for WorkerState {
    fn default() -> (s: WorkerState)
        ensures
            s.active_instances == 0,
            s.capacity == 0,
            !s.done,
            s.duration@ == 0,
            s.left@ == 0,
            s.error is None,
    {
        WorkerState {
            active_instances: 0,
            capacity: 0,
            done: false,
            duration: Duration::zero(),
            left: Duration::zero(),
            error: None,
        }
    }
}

impl WorkerState {
    /// A worker has finished once it is done or has failed.
    pub open spec fn spec_finished(&self) -> bool {
        self.done || self.error is Some
    }

    /// Whether the worker has finished.
    pub fn finished(&self) -> (b: bool)
        ensures
            b == self.spec_finished(),
    {
        self.done || self.error.is_some()
    }
}

/// What the progress display shows for a worker.
#[derive(Debug)]
pub enum WorkerLine {
    /// The worker failed with this message.
    Error(String),
    /// The worker is done.
    Done,
    /// The worker is running: time elapsed and left, instances checked out
    /// and reserved.
    Progress { duration: Duration, left: Duration, active_instances: isize, capacity: isize },
}

/// What to show for a worker: a failure first, then completion, otherwise
/// its progress.
pub fn worker_line(state: &WorkerState) -> (l: WorkerLine)
    ensures
        state.error matches Some(m) ==> (l matches WorkerLine::Error(e) && e@ == m@),
        state.error is None && state.done ==> l is Done,
        state.error is None && !state.done ==> l == (WorkerLine::Progress {
            duration: state.duration,
            left: state.left,
            active_instances: state.active_instances,
            capacity: state.capacity,
        }),
{
    match &state.error {
        Some(message) => WorkerLine::Error(message.clone()),
        None => if state.done {
            WorkerLine::Done
        } else {
            WorkerLine::Progress {
                duration: state.duration,
                left: state.left,
                active_instances: state.active_instances,
                capacity: state.capacity,
            }
        },
    }
}

/// A worker's state with its not yet printed output.
#[derive(Debug)]
pub struct WorkerProgress {
    pub name: String,
    pub state: WorkerState,
    pub stdout_buffer: String,
    pub stderr_buffer: String,
}

/// The progress of a run over all its workers, with the statistics gathered
/// so far.
#[derive(Debug)]
pub struct RunProgress {
    pub workers: Vec<WorkerProgress>,
    pub request_stats: Vec<RequestInfo>,
    pub iteration_stats: Vec<IterationInfo>,
}

/// What handling one update gives: lines to print, whether a buffer was
/// flushed because it waited too long, and whether every worker has finished.
#[derive(Debug)]
pub struct ProgressStep {
    pub lines: Vec<String>,
    pub flushed: bool,
    pub finished: bool,
}

/// An update came from a worker the run does not know.
#[derive(Debug, Clone, Copy, PartialEq, Eq, Structural)]
pub enum ProgressError {
    UnknownWorker,
}

/// A printed line of worker output: `[level][worker] text`.
pub open spec fn tagged(level: Seq<char>, worker: Seq<char>, text: Seq<char>) -> Seq<char> {
    "["@ + level + "]["@ + worker + "] "@ + text
}

/// Each of `lines` tagged with the level and the worker.
pub open spec fn tag_all(level: Seq<char>, worker: Seq<char>, lines: Seq<Seq<char>>) -> Seq<Seq<char>> {
    lines.map_values(|l: Seq<char>| tagged(level, worker, l))
}

/// The text a buffer holds once `content` is appended and complete lines
/// are taken out.
pub open spec fn after_lines(buffer: Seq<char>, content: Seq<char>) -> Seq<char> {
    let joined = buffer + content;
    if joined.contains('\n') { unfinished_line(joined) } else { joined }
}

/// The lines printed when `content` is appended to a buffer, and, when
/// `flush` holds, whatever is still unfinished.
pub open spec fn buffered_lines(level: Seq<char>, worker: Seq<char>, buffer: Seq<char>, content: Seq<char>, flush: bool) -> Seq<Seq<char>> {
    let joined = buffer + content;
    let lines = if joined.contains('\n') { tag_all(level, worker, complete_lines(joined)) } else { Seq::empty() };
    let rest = after_lines(buffer, content);
    if flush && rest.len() > 0 { lines.push(tagged(level, worker, rest)) } else { lines }
}

/// What a buffer holds after `content` is appended, lines are taken out and,
/// when `flush` holds, the rest is printed.
pub open spec fn buffer_after(buffer: Seq<char>, content: Seq<char>, flush: bool) -> Seq<char> {
    let rest = after_lines(buffer, content);
    if flush && rest.len() > 0 { Seq::empty() } else { rest }
}

/// A worker's state after an update that is not output or statistics.
pub open spec fn state_after(s: WorkerState, update: InfoMessage) -> WorkerState {
    match update {
        InfoMessage::InstanceCheckedOut => WorkerState { active_instances: (s.active_instances + 1) as isize, ..s },
        InfoMessage::InstanceReserved => WorkerState { capacity: (s.capacity + 1) as isize, ..s },
        InfoMessage::InstanceCheckedIn => WorkerState { active_instances: (s.active_instances - 1) as isize, ..s },
        InfoMessage::TimingUpdate((elapsed, left)) => WorkerState { duration: elapsed, left, ..s },
        InfoMessage::Done => WorkerState { done: true, ..s },
        InfoMessage::PrepareError(message) => WorkerState { error: Some(message), ..s },
        InfoMessage::RunError(message) => WorkerState { error: Some(message), ..s },
        _ => s,
    }
}

/// The counters an update changes stay within their type.
pub open spec fn counters_fit(s: WorkerState, update: InfoMessage) -> bool {
    match update {
        InfoMessage::InstanceCheckedOut => s.active_instances < isize::MAX,
        InfoMessage::InstanceReserved => s.capacity < isize::MAX,
        InfoMessage::InstanceCheckedIn => s.active_instances > isize::MIN,
        _ => true,
    }
}

/// Every worker has finished.
pub open spec fn all_finished(workers: Seq<WorkerProgress>) -> bool {
    forall|i: int| 0 <= i < workers.len() ==> (#[trigger] workers[i]).state.spec_finished()
}

/// The lines that empty the non-empty buffers `bufs` of the workers named
/// `names`, in order, tagged with `level`.
pub open spec fn flush_lines(level: Seq<char>, names: Seq<Seq<char>>, bufs: Seq<Seq<char>>) -> Seq<Seq<char>>
    decreases bufs.len(),
{
    if bufs.len() == 0 {
        Seq::empty()
    } else {
        let rest = flush_lines(level, names, bufs.drop_last());
        let i = bufs.len() - 1;
        if bufs[i].len() > 0 { rest.push(tagged(level, names[i], bufs[i])) } else { rest }
    }
}

/// The standard error buffers of `workers` once `update` has reached the
/// worker at `k`, before anything is flushed at the end of the run.
pub open spec fn stderr_after(workers: Seq<WorkerProgress>, k: int, update: InfoMessage, flush: bool) -> Seq<Seq<char>> {
    Seq::new(workers.len(), |i: int|
        match update {
            InfoMessage::Stderr(bytes) if i == k => buffer_after(workers[i].stderr_buffer@, utf8_lossy_text(bytes@), flush),
            _ => workers[i].stderr_buffer@,
        })
}

/// The standard output buffers of `workers` once `update` has reached the
/// worker at `k`, before anything is flushed at the end of the run.
pub open spec fn stdout_after(workers: Seq<WorkerProgress>, k: int, update: InfoMessage, flush: bool) -> Seq<Seq<char>> {
    Seq::new(workers.len(), |i: int|
        match update {
            InfoMessage::Stdout(bytes) if i == k => buffer_after(workers[i].stdout_buffer@, utf8_lossy_text(bytes@), flush),
            _ => workers[i].stdout_buffer@,
        })
}

/// The lines an update prints for the worker it came from.
pub open spec fn update_lines(w: WorkerProgress, update: InfoMessage, flush: bool) -> Seq<Seq<char>> {
    match update {
        InfoMessage::Stderr(bytes) => buffered_lines("ERROR"@, w.name@, w.stderr_buffer@, utf8_lossy_text(bytes@), flush),
        InfoMessage::Stdout(bytes) => buffered_lines("INFO"@, w.name@, w.stdout_buffer@, utf8_lossy_text(bytes@), flush),
        _ => Seq::empty(),
    }
}

/// Whether an update flushes the worker's unfinished output because it
/// waited too long.
pub open spec fn update_flushes(w: WorkerProgress, update: InfoMessage, flush: bool) -> bool {
    match update {
        InfoMessage::Stderr(bytes) => flush && after_lines(w.stderr_buffer@, utf8_lossy_text(bytes@)).len() > 0,
        InfoMessage::Stdout(bytes) => flush && after_lines(w.stdout_buffer@, utf8_lossy_text(bytes@)).len() > 0,
        _ => false,
    }
}

/// Names kept once each, first occurrence first.
pub open spec fn dedup(names: Seq<Seq<char>>) -> Seq<Seq<char>>
    decreases names.len(),
{
    if names.len() == 0 {
        Seq::empty()
    } else {
        let d = dedup(names.drop_last());
        if d.contains(names.last()) { d } else { d.push(names.last()) }
    }
}

/// `[level][worker] text`.
fn tagged_line(level: &str, worker: &String, text: &str) -> (s: String)
    ensures
        s@ == tagged(level@, worker@, text@),
{
    let mut s = String::new();
    s.append("[");
    s.append(level);
    s.append("][");
    s.append(worker.as_str());
    s.append("] ");
    s.append(text);
    proof {
        assert(s@ =~= tagged(level@, worker@, text@));
    }
    s
}

/// Appends `content` to `buffer`, takes out the completed lines tagged with
/// `level` and `worker`, and, when `flush` holds, also the unfinished rest.
fn feed_buffer(buffer: &mut String, level: &str, worker: &String, content: String, flush: bool) -> (r: (Vec<String>, bool))
    ensures
        r.0.deep_view() == buffered_lines(level@, worker@, old(buffer)@, content@, flush),
        final(buffer)@ == buffer_after(old(buffer)@, content@, flush),
        r.1 == (flush && after_lines(old(buffer)@, content@).len() > 0),
{
    buffer.append(content.as_str());
    let ghost joined = buffer@;
    let mut lines: Vec<String> = Vec::new();
    if contains_newline(buffer.as_str()) {
        match process_buffer(buffer) {
            Some(complete) => {
                let mut i: usize = 0;
                while i < complete.len()
                    invariant
                        0 <= i <= complete.len(),
                        complete.deep_view() == complete_lines(joined),
                        lines.deep_view() == tag_all(level@, worker@, complete_lines(joined).take(i as int)),
                    decreases complete.len() - i,
                {
                    let line = tagged_line(level, worker, complete[i].as_str());
                    let ghost before = lines.deep_view();
                    lines.push(line);
                    proof {
                        let cl = complete_lines(joined);
                        assert(complete.deep_view()[i as int] == complete@[i as int]@);
                        assert(cl.take(i + 1) =~= cl.take(i as int).push(cl[i as int]));
                        assert(lines.deep_view() =~= before.push(tagged(level@, worker@, cl[i as int])));
                        assert(tag_all(level@, worker@, cl.take(i + 1)) =~= tag_all(level@, worker@, cl.take(i as int)).push(tagged(level@, worker@, cl[i as int])));
                    }
                    i += 1;
                }
                assert(complete_lines(joined).take(complete.len() as int) =~= complete_lines(joined));
            },
            None => {
                assert(lines.deep_view() =~= tag_all(level@, worker@, complete_lines(joined)));
            },
        }
    } else {
        assert(lines.deep_view() =~= Seq::<Seq<char>>::empty());
    }
    let mut flushed = false;
    if flush && buffer.as_str().unicode_len() > 0 {
        let line = tagged_line(level, worker, buffer.as_str());
        let ghost before = lines.deep_view();
        lines.push(line);
        assert(lines.deep_view() =~= before.push(tagged(level@, worker@, after_lines(old(buffer)@, content@))));
        *buffer = String::new();
        flushed = true;
    }
    (lines, flushed)
}

/// Whether `s` holds a newline.
pub fn contains_newline(s: &str) -> (b: bool)
    ensures
        b == s@.contains('\n'),
{
    let chars = chars_of(s);
    let mut i: usize = 0;
    while i < chars.len()
        invariant
            chars@ == s@,
            0 <= i <= chars.len(),
            forall|j: int| 0 <= j < i ==> chars@[j] != '\n',
        decreases chars.len() - i,
    {
        if chars[i] == '\n' {
            assert(s@[i as int] == '\n');
            return true;
        }
        i += 1;
    }
    false
}

impl RunProgress {
    /// The worker names, in order.
    pub open spec fn names(&self) -> Seq<Seq<char>> {
        self.workers@.map_values(|w: WorkerProgress| w.name@)
    }

    /// No two workers share a name.
    pub open spec fn well_formed(&self) -> bool {
        forall|i: int, j: int| 0 <= i < j < self.workers.len() ==>
            (#[trigger] self.workers@[i]).name@ != (#[trigger] self.workers@[j]).name@
    }

    /// The tracked progress of a run on the given workers, each known once,
    /// with nothing received yet.
    pub fn new(worker_names: Vec<String>) -> (p: RunProgress)
        ensures
            p.well_formed(),
            p.names() == dedup(worker_names.deep_view()),
            forall|i: int| 0 <= i < p.workers.len() ==> {
                let w = #[trigger] p.workers@[i];
                &&& w.state.active_instances == 0
                &&& w.state.capacity == 0
                &&& !w.state.done
                &&& w.state.duration@ == 0
                &&& w.state.left@ == 0
                &&& w.state.error is None
                &&& w.stdout_buffer@.len() == 0
                &&& w.stderr_buffer@.len() == 0
            },
            p.request_stats@.len() == 0,
            p.iteration_stats@.len() == 0,
    {
        let mut workers: Vec<WorkerProgress> = Vec::new();
        let mut i: usize = 0;
        let ghost all = worker_names.deep_view();
        while i < worker_names.len()
            invariant
                0 <= i <= worker_names.len(),
                all == worker_names.deep_view(),
                workers@.map_values(|w: WorkerProgress| w.name@) == dedup(all.take(i as int)),
                forall|a: int, b: int| 0 <= a < b < workers.len() ==>
                    (#[trigger] workers@[a]).name@ != (#[trigger] workers@[b]).name@,
                forall|a: int| 0 <= a < workers.len() ==> {
                    let w = #[trigger] workers@[a];
                    &&& w.state.active_instances == 0
                    &&& w.state.capacity == 0
                    &&& !w.state.done
                    &&& w.state.duration@ == 0
                    &&& w.state.left@ == 0
                    &&& w.state.error is None
                    &&& w.stdout_buffer@.len() == 0
                    &&& w.stderr_buffer@.len() == 0
                },
            decreases worker_names.len() - i,
        {
            let ghost names_before = workers@.map_values(|w: WorkerProgress| w.name@);
            proof {
                assert(all.take(i + 1).drop_last() =~= all.take(i as int));
                assert(all.take(i + 1).last() == worker_names@[i as int]@);
            }
            let name = worker_names[i].clone();
            let mut seen = false;
            let mut j: usize = 0;
            while j < workers.len()
                invariant
                    0 <= j <= workers.len(),
                    names_before == workers@.map_values(|w: WorkerProgress| w.name@),
                    name@ == worker_names@[i as int]@,
                    seen <==> exists|a: int| 0 <= a < j && #[trigger] workers@[a].name@ == name@,
                decreases workers.len() - j,
            {
                if workers[j].name == name {
                    seen = true;
                }
                j += 1;
            }
            proof {
                if seen {
                    let a = choose|a: int| 0 <= a < j && #[trigger] workers@[a].name@ == name@;
                    assert(names_before[a] == name@);
                    assert(names_before.contains(name@));
                } else {
                    assert forall|a: int| 0 <= a < names_before.len() implies names_before[a] != name@ by {
                        assert(workers@[a].name@ == names_before[a]);
                    }
                    assert(!names_before.contains(name@));
                }
            }
            if !seen {
                workers.push(WorkerProgress {
                    name,
                    state: WorkerState::default(),
                    stdout_buffer: String::new(),
                    stderr_buffer: String::new(),
                });
                proof {
                    assert(workers@.map_values(|w: WorkerProgress| w.name@) =~= names_before.push(worker_names@[i as int]@));
                }
            }
            i += 1;
        }
        proof {
            assert(all.take(worker_names.len() as int) =~= all);
        }
        RunProgress { workers, request_stats: Vec::new(), iteration_stats: Vec::new() }
    }

    /// Handles one update from the worker named `worker_name`.
    ///
    /// An update from an unknown worker is refused and changes nothing.
    /// Otherwise output is buffered and its completed lines returned, tagged
    /// `[ERROR]` or `[INFO]`; when `should_flush_time` holds, unfinished
    /// output is returned too. Statistics are kept, and the worker's state is
    /// updated. Once every worker has finished, all buffers are emptied into
    /// the returned lines, standard error first.
    pub fn apply(&mut self, worker_name: &String, update: InfoMessage, should_flush_time: bool) -> (r: Result<ProgressStep, ProgressError>)
        requires
            old(self).well_formed(),
            forall|i: int| 0 <= i < old(self).workers.len() && (#[trigger] old(self).workers@[i]).name@ == worker_name@
                ==> counters_fit(old(self).workers@[i].state, update),
        ensures
            final(self).well_formed(),
            r is Err <==> !old(self).names().contains(worker_name@),
            r is Err ==> r == Err::<ProgressStep, ProgressError>(ProgressError::UnknownWorker) && *final(self) == *old(self),
            forall|k: int| 0 <= k < old(self).workers.len() && (#[trigger] old(self).workers@[k]).name@ == worker_name@ ==> {
                let before = old(self).workers@;
                let after = final(self).workers@;
                let errs = stderr_after(before, k, update, should_flush_time);
                let outs = stdout_after(before, k, update, should_flush_time);
                &&& r matches Ok(step)
                &&& final(self).names() == old(self).names()
                &&& forall|i: int| 0 <= i < after.len() ==> (#[trigger] after[i]).state
                    == if i == k { state_after(before[i].state, update) } else { before[i].state }
                &&& step.finished == all_finished(after)
                &&& forall|i: int| 0 <= i < after.len() ==> (#[trigger] after[i]).stderr_buffer@
                    == if step.finished { Seq::<char>::empty() } else { errs[i] }
                &&& forall|i: int| 0 <= i < after.len() ==> (#[trigger] after[i]).stdout_buffer@
                    == if step.finished { Seq::<char>::empty() } else { outs[i] }
                &&& step.lines.deep_view() == update_lines(before[k], update, should_flush_time) + if step.finished {
                        flush_lines("ERROR"@, old(self).names(), errs) + flush_lines("INFO"@, old(self).names(), outs)
                    } else {
                        Seq::empty()
                    }
                &&& step.flushed == update_flushes(before[k], update, should_flush_time)
                &&& final(self).request_stats@ == match update {
                        InfoMessage::RequestInfo(info) => old(self).request_stats@.push(info),
                        _ => old(self).request_stats@,
                    }
                &&& final(self).iteration_stats@ == match update {
                        InfoMessage::IterationInfo(info) => old(self).iteration_stats@.push(info),
                        _ => old(self).iteration_stats@,
                    }
            },
    {
        let ghost before = self.workers@;
        let ghost names = self.names();
        let mut k: usize = 0;
        let mut found = false;
        while k < self.workers.len() && !found
            invariant
                0 <= k <= self.workers.len(),
                self.workers@ == before,
                found ==> k < self.workers.len() && before[k as int].name@ == worker_name@,
                forall|i: int| 0 <= i < k ==> (#[trigger] before[i]).name@ != worker_name@,
            decreases self.workers.len() - k, if found { 0int } else { 1int },
        {
            if self.workers[k].name == *worker_name {
                found = true;
            } else {
                k += 1;
            }
        }
        if !found {
            proof {
                if names.contains(worker_name@) {
                    let a = choose|a: int| 0 <= a < names.len() && names[a] == worker_name@;
                    assert(before[a].name@ == names[a]);
                    assert(false);
                }
            }
            return Err(ProgressError::UnknownWorker);
        }
        assert(names[k as int] == worker_name@);
        let name = self.workers[k].name.clone();
        let mut lines: Vec<String> = Vec::new();
        let mut flushed = false;
        let ghost upd = update;
        let ghost errs = stderr_after(before, k as int, upd, should_flush_time);
        let ghost outs = stdout_after(before, k as int, upd, should_flush_time);
        proof {
            assert(lines.deep_view() =~= Seq::<Seq<char>>::empty());
        }
        match update {
            InfoMessage::Stderr(bytes) => {
                let content = lossy_utf8(&bytes);
                let (ls, fl) = feed_buffer(&mut self.workers[k].stderr_buffer, "ERROR", &name, content, should_flush_time);
                lines = ls;
                flushed = fl;
            },
            InfoMessage::Stdout(bytes) => {
                let content = lossy_utf8(&bytes);
                let (ls, fl) = feed_buffer(&mut self.workers[k].stdout_buffer, "INFO", &name, content, should_flush_time);
                lines = ls;
                flushed = fl;
            },
            InfoMessage::RequestInfo(info) => {
                self.request_stats.push(info);
            },
            InfoMessage::IterationInfo(info) => {
                self.iteration_stats.push(info);
            },
            InfoMessage::InstanceCheckedOut => {
                self.workers[k].state.active_instances = self.workers[k].state.active_instances + 1;
            },
            InfoMessage::InstanceReserved => {
                self.workers[k].state.capacity = self.workers[k].state.capacity + 1;
            },
            InfoMessage::InstanceCheckedIn => {
                self.workers[k].state.active_instances = self.workers[k].state.active_instances - 1;
            },
            InfoMessage::TimingUpdate((elapsed, left)) => {
                self.workers[k].state.duration = elapsed;
                self.workers[k].state.left = left;
            },
            InfoMessage::Done => {
                self.workers[k].state.done = true;
            },
            InfoMessage::PrepareError(message) => {
                self.workers[k].state.error = Some(message);
            },
            InfoMessage::RunError(message) => {
                self.workers[k].state.error = Some(message);
            },
        }
        let ghost mid = self.workers@;
        proof {
            assert(lines.deep_view() == update_lines(before[k as int], upd, should_flush_time));
            assert(flushed == update_flushes(before[k as int], upd, should_flush_time));
            assert(mid[k as int].state == state_after(before[k as int].state, upd));
            assert(mid[k as int].name == before[k as int].name);
            assert forall|i: int| 0 <= i < mid.len() && i != k implies #[trigger] mid[i] == before[i] by {}
            assert forall|i: int| 0 <= i < mid.len() implies (#[trigger] mid[i]).stderr_buffer@ == errs[i] by {}
            assert forall|i: int| 0 <= i < mid.len() implies (#[trigger] mid[i]).stdout_buffer@ == outs[i] by {}
            assert(mid.map_values(|w: WorkerProgress| w.stderr_buffer@) =~= errs);
            assert(mid.map_values(|w: WorkerProgress| w.stdout_buffer@) =~= outs);
            assert(self.names() =~= names);
        }
        let finished = self.all_workers_finished();
        if finished {
            self.flush_all(&mut lines);
        }
        proof {
            let after = self.workers@;
            assert forall|i: int| 0 <= i < after.len() implies (#[trigger] after[i]).name@ == names[i] by {
                assert(self.names()[i] == after[i].name@);
            }
            assert forall|i: int, j: int| 0 <= i < j < after.len() implies
                (#[trigger] after[i]).name@ != (#[trigger] after[j]).name@ by {
                assert(before[i].name@ == names[i]);
                assert(before[j].name@ == names[j]);
            }
            assert forall|k2: int| 0 <= k2 < before.len() && (#[trigger] before[k2]).name@ == worker_name@ implies k2 == k by {
                if k2 != k {
                    if k2 < k {
                        assert(before[k2].name@ != before[k as int].name@);
                    } else {
                        assert(before[k as int].name@ != before[k2].name@);
                    }
                }
            }
            assert(all_finished(after) == all_finished(mid));
        }
        Ok(ProgressStep { lines, flushed, finished })
    }

    /// Whether every worker has finished.
    fn all_workers_finished(&self) -> (b: bool)
        ensures
            b == all_finished(self.workers@),
    {
        let mut i: usize = 0;
        while i < self.workers.len()
            invariant
                0 <= i <= self.workers.len(),
                forall|j: int| 0 <= j < i ==> (#[trigger] self.workers@[j]).state.spec_finished(),
            decreases self.workers.len() - i,
        {
            if !self.workers[i].state.finished() {
                return false;
            }
            i += 1;
        }
        true
    }

    /// Empties every buffer into `lines`: first all standard error, then all
    /// standard output.
    fn flush_all(&mut self, lines: &mut Vec<String>)
        ensures
            final(self).names() == old(self).names(),
            forall|i: int| 0 <= i < final(self).workers.len() ==> (#[trigger] final(self).workers@[i]).state == old(self).workers@[i].state,
            forall|i: int| 0 <= i < final(self).workers.len() ==> (#[trigger] final(self).workers@[i]).stderr_buffer@.len() == 0,
            forall|i: int| 0 <= i < final(self).workers.len() ==> (#[trigger] final(self).workers@[i]).stdout_buffer@.len() == 0,
            final(self).request_stats == old(self).request_stats,
            final(self).iteration_stats == old(self).iteration_stats,
            final(lines).deep_view() == old(lines).deep_view()
                + flush_lines("ERROR"@, old(self).names(), old(self).workers@.map_values(|w: WorkerProgress| w.stderr_buffer@))
                + flush_lines("INFO"@, old(self).names(), old(self).workers@.map_values(|w: WorkerProgress| w.stdout_buffer@)),
    {
        let ghost start = self.workers@;
        let ghost names = old(self).names();
        let ghost errs = start.map_values(|w: WorkerProgress| w.stderr_buffer@);
        let ghost outs = start.map_values(|w: WorkerProgress| w.stdout_buffer@);
        let ghost lines0 = lines.deep_view();
        let n = self.workers.len();
        let mut i: usize = 0;
        while i < n
            invariant
                0 <= i <= n == self.workers.len() == start.len(),
                names == start.map_values(|w: WorkerProgress| w.name@),
                errs == start.map_values(|w: WorkerProgress| w.stderr_buffer@),
                forall|j: int| 0 <= j < n ==> (#[trigger] self.workers@[j]).name == start[j].name,
                forall|j: int| 0 <= j < n ==> (#[trigger] self.workers@[j]).state == start[j].state,
                forall|j: int| 0 <= j < n ==> (#[trigger] self.workers@[j]).stdout_buffer == start[j].stdout_buffer,
                forall|j: int| 0 <= j < i ==> (#[trigger] self.workers@[j]).stderr_buffer@.len() == 0,
                forall|j: int| i <= j < n ==> (#[trigger] self.workers@[j]).stderr_buffer == start[j].stderr_buffer,
                lines.deep_view() == lines0 + flush_lines("ERROR"@, names, errs.take(i as int)),
                self.request_stats == old(self).request_stats,
                self.iteration_stats == old(self).iteration_stats,
            decreases n - i,
        {
            proof {
                assert(errs.take(i + 1).drop_last() =~= errs.take(i as int));
            }
            if self.workers[i].stderr_buffer.as_str().unicode_len() > 0 {
                let line = tagged_line("ERROR", &self.workers[i].name, self.workers[i].stderr_buffer.as_str());
                let ghost before = lines.deep_view();
                lines.push(line);
                assert(lines.deep_view() =~= before.push(tagged("ERROR"@, names[i as int], errs[i as int])));
                self.workers[i].stderr_buffer = String::new();
            }
            proof {
                assert(lines.deep_view() =~= lines0 + flush_lines("ERROR"@, names, errs.take(i + 1)));
            }
            i += 1;
        }
        assert(errs.take(n as int) =~= errs);
        let ghost lines1 = lines.deep_view();
        let mut i: usize = 0;
        while i < n
            invariant
                0 <= i <= n == self.workers.len() == start.len(),
                names == start.map_values(|w: WorkerProgress| w.name@),
                outs == start.map_values(|w: WorkerProgress| w.stdout_buffer@),
                forall|j: int| 0 <= j < n ==> (#[trigger] self.workers@[j]).name == start[j].name,
                forall|j: int| 0 <= j < n ==> (#[trigger] self.workers@[j]).state == start[j].state,
                forall|j: int| 0 <= j < n ==> (#[trigger] self.workers@[j]).stderr_buffer@.len() == 0,
                forall|j: int| 0 <= j < i ==> (#[trigger] self.workers@[j]).stdout_buffer@.len() == 0,
                forall|j: int| i <= j < n ==> (#[trigger] self.workers@[j]).stdout_buffer == start[j].stdout_buffer,
                lines.deep_view() == lines1 + flush_lines("INFO"@, names, outs.take(i as int)),
                self.request_stats == old(self).request_stats,
                self.iteration_stats == old(self).iteration_stats,
            decreases n - i,
        {
            proof {
                assert(outs.take(i + 1).drop_last() =~= outs.take(i as int));
            }
            if self.workers[i].stdout_buffer.as_str().unicode_len() > 0 {
                let line = tagged_line("INFO", &self.workers[i].name, self.workers[i].stdout_buffer.as_str());
                let ghost before = lines.deep_view();
                lines.push(line);
                assert(lines.deep_view() =~= before.push(tagged("INFO"@, names[i as int], outs[i as int])));
                self.workers[i].stdout_buffer = String::new();
            }
            proof {
                assert(lines.deep_view() =~= lines1 + flush_lines("INFO"@, names, outs.take(i + 1)));
            }
            i += 1;
        }
        assert(outs.take(n as int) =~= outs);
        assert(self.names() =~= names);
    }
}


/// Checking an instance out and back in leaves a worker's counters as they
/// were.
pub proof fn lemma_checkout_checkin_counters(s: WorkerState)
    requires
        s.active_instances < isize::MAX,
    ensures
        state_after(state_after(s, InfoMessage::InstanceCheckedOut), InfoMessage::InstanceCheckedIn) == s,
{
}

/// A worker that reports a failure, while preparing or while running, keeps
/// that message as its error and is then finished; whether it was done, its
/// counters and its timings stay as they were.
pub proof fn lemma_error_update(s: WorkerState, m: String, running: bool)
    ensures ({
        let update = if running { InfoMessage::RunError(m) } else { InfoMessage::PrepareError(m) };
        let t = state_after(s, update);
        &&& t.error == Some(m)
        &&& t.done == s.done
        &&& t.active_instances == s.active_instances
        &&& t.capacity == s.capacity
        &&& t.duration == s.duration
        &&& t.left == s.left
        &&& t.spec_finished()
    }),
{
}

/// A worker that reports it is done is done and finished, and keeps any
/// error it had reported.
pub proof fn lemma_done_update(s: WorkerState)
    ensures
        state_after(s, InfoMessage::Done).done,
        state_after(s, InfoMessage::Done).error == s.error,
        state_after(s, InfoMessage::Done).spec_finished(),
{
}

/// A worker that has finished stays finished whatever update comes next.
pub proof fn lemma_finished_stays_finished(s: WorkerState, update: InfoMessage)
    requires
        s.spec_finished(),
    ensures
        state_after(s, update).spec_finished(),
{
}


/// Without a timed flush, appending text prints exactly its completed lines
/// and keeps exactly its unfinished line, whether or not it holds a newline.
pub proof fn lemma_buffering_without_flush(level: Seq<char>, worker: Seq<char>, buffer: Seq<char>, content: Seq<char>)
    ensures
        buffered_lines(level, worker, buffer, content, false) == tag_all(level, worker, complete_lines(buffer + content)),
        after_lines(buffer, content) == unfinished_line(buffer + content),
        buffer_after(buffer, content, false) == unfinished_line(buffer + content),
{
    let joined = buffer + content;
    if !joined.contains('\n') {
        lemma_split_no_newline(joined);
        assert(split_newlines(joined).drop_last() =~= Seq::<Seq<char>>::empty());
        assert(tag_all(level, worker, complete_lines(joined)) =~= Seq::<Seq<char>>::empty());
    }
}

/// A worker's output printed in two updates gives the same lines, in the
/// same order, and leaves the same unfinished text as the same output in a
/// single update, as long as no timed flush comes between.
pub proof fn lemma_output_in_parts(level: Seq<char>, worker: Seq<char>, buffer: Seq<char>, first: Seq<char>, second: Seq<char>)
    ensures
        buffered_lines(level, worker, buffer, first, false)
            + buffered_lines(level, worker, buffer_after(buffer, first, false), second, false)
            == buffered_lines(level, worker, buffer, first + second, false),
        buffer_after(buffer_after(buffer, first, false), second, false) == buffer_after(buffer, first + second, false),
{
    lemma_buffering_without_flush(level, worker, buffer, first);
    let rest = unfinished_line(buffer + first);
    lemma_buffering_without_flush(level, worker, rest, second);
    lemma_buffering_without_flush(level, worker, buffer, first + second);
    assert(buffer + first + second =~= buffer + (first + second));
    lemma_lines_in_parts(buffer, first, second);
    let a = complete_lines(buffer + first);
    let b = complete_lines(rest + second);
    assert(tag_all(level, worker, a) + tag_all(level, worker, b) =~= tag_all(level, worker, a + b));
}

} // verus!
