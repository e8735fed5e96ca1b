//! Owned-process lifecycle states, process summaries and their bounded log capture.
use vstd::prelude::*;
use vstd::string::StringExecFns;
use crate::errors::{is_error, AppError, ErrorKind};
use crate::text::{cat, fitting_prefix, lemma_index_of_unique, longest_fitting_prefix, lossy_decode, lossy_text, str_eq, trim, trim_spec};

verus! {

pub const MAX_LOG_LINES: usize = 2000;
pub const MAX_LOG_LINE_BYTES: usize = 16384;

/// Where an owned engine process is in its life.
#[derive(Debug, Clone, Copy, PartialEq, Eq, Structural)]
pub enum EngineLifecycle {
    NotInstalled,
    Installed,
    Starting,
    LoadingModel,
    Ready,
    Busy,
    Stopping,
    Stopped,
    Crashed,
    Recovering,
    Error,
}

impl EngineLifecycle {
    pub open spec fn is_terminal_spec(self) -> bool {
        self == EngineLifecycle::Stopped || self == EngineLifecycle::Crashed || self
            == EngineLifecycle::Error || self == EngineLifecycle::NotInstalled
    }

    /// The process has ended (or never existed) and will not change state on its own.
    pub fn is_terminal(self) -> (terminal: bool)
        ensures
            terminal == self.is_terminal_spec(),
    {
        match self {
            EngineLifecycle::Stopped | EngineLifecycle::Crashed | EngineLifecycle::Error
            | EngineLifecycle::NotInstalled => true,
            _ => false,
        }
    }
}

/// The explanation shown for a lifecycle state of the llama.cpp runtime.
pub open spec fn lifecycle_detail_spec(lifecycle: EngineLifecycle) -> Seq<char> {
    match lifecycle {
        EngineLifecycle::Starting => "Starting the owned llama.cpp process."@,
        EngineLifecycle::LoadingModel => "llama.cpp is loading and validating the GGUF model."@,
        EngineLifecycle::Ready => "The GGUF model is loaded and the loopback identity is verified."@,
        EngineLifecycle::Busy => "llama.cpp is processing a request."@,
        EngineLifecycle::Stopping => "Stopping the owned llama.cpp process."@,
        EngineLifecycle::Stopped => "The llama.cpp session is stopped; retained logs remain available."@,
        EngineLifecycle::Crashed => "llama.cpp exited unexpectedly; inspect the retained logs."@,
        EngineLifecycle::Error => "The llama.cpp process entered an error state."@,
        EngineLifecycle::Recovering => "llama.cpp recovery is in progress."@,
        EngineLifecycle::Installed => "The verified llama.cpp runtime is available."@,
        EngineLifecycle::NotInstalled => "The llama.cpp runtime is not installed."@,
    }
}

pub fn lifecycle_detail(lifecycle: EngineLifecycle) -> (detail: String)
    ensures
        detail@ == lifecycle_detail_spec(lifecycle),
{
    match lifecycle {
        EngineLifecycle::Starting => "Starting the owned llama.cpp process.".to_owned(),
        EngineLifecycle::LoadingModel => "llama.cpp is loading and validating the GGUF model.".to_owned(),
        EngineLifecycle::Ready => "The GGUF model is loaded and the loopback identity is verified.".to_owned(),
        EngineLifecycle::Busy => "llama.cpp is processing a request.".to_owned(),
        EngineLifecycle::Stopping => "Stopping the owned llama.cpp process.".to_owned(),
        EngineLifecycle::Stopped => "The llama.cpp session is stopped; retained logs remain available.".to_owned(),
        EngineLifecycle::Crashed => "llama.cpp exited unexpectedly; inspect the retained logs.".to_owned(),
        EngineLifecycle::Error => "The llama.cpp process entered an error state.".to_owned(),
        EngineLifecycle::Recovering => "llama.cpp recovery is in progress.".to_owned(),
        EngineLifecycle::Installed => "The verified llama.cpp runtime is available.".to_owned(),
        EngineLifecycle::NotInstalled => "The llama.cpp runtime is not installed.".to_owned(),
    }
}

/// What the interface may know about an owned process.
#[derive(Debug, Clone, PartialEq, Eq)]
pub struct ProcessSummary {
    pub id: String,
    pub label: String,
    pub pid: Option<u32>,
    pub state: EngineLifecycle,
    pub started_at: String,
    pub ended_at: Option<String>,
    pub exit_code: Option<i32>,
}

/// The newest captured output lines of one process, at most 2,000 of them.
pub struct LogBuffer {
    lines: Vec<String>,
}

impl View for LogBuffer {
    type V = Seq<Seq<char>>;

    closed spec fn view(&self) -> Seq<Seq<char>> {
        self.lines@.map_values(|l: String| l@)
    }
}

/// The last `MAX_LOG_LINES` lines of everything captured.
pub open spec fn retained_lines(all: Seq<Seq<char>>) -> Seq<Seq<char>> {
    if all.len() <= MAX_LOG_LINES {
        all
    } else {
        all.subrange(all.len() - MAX_LOG_LINES as int, all.len() as int)
    }
}

impl LogBuffer {
    /// At most 2,000 lines are held.
    #[verifier::type_invariant]
    closed spec fn bounded(self) -> bool {
        self.lines@.len() <= MAX_LOG_LINES
    }

    pub fn new() -> (buffer: LogBuffer)
        ensures
            buffer@ == Seq::<Seq<char>>::empty(),
    {
        let buffer = LogBuffer { lines: Vec::new() };
        assert(buffer@ =~= Seq::<Seq<char>>::empty());
        buffer
    }

    pub fn len(&self) -> (count: usize)
        ensures
            count == self@.len(),
            count <= MAX_LOG_LINES,
    {
        proof { use_type_invariant(self); }
        self.lines.len()
    }

    /// Appends one line, dropping the oldest line when the buffer is full.
    pub fn push(&mut self, line: String)
        ensures
            final(self)@ == retained_lines(old(self)@.push(line@)),
            final(self)@.len() <= MAX_LOG_LINES,
    {
        proof { use_type_invariant(&*self); }
        let ghost before = self@;
        let mut lines: Vec<String> = Vec::new();
        std::mem::swap(&mut lines, &mut self.lines);
        if lines.len() >= MAX_LOG_LINES {
            lines.remove(0);
        }
        let ghost l = line@;
        lines.push(line);
        let ghost after = lines@.map_values(|t: String| t@);
        proof {
            assert(before == old(self).lines@.map_values(|t: String| t@));
            if before.len() >= MAX_LOG_LINES {
                assert(after =~= before.push(l).subrange(before.len() + 1 - MAX_LOG_LINES as int, (before.len() + 1) as int));
            } else {
                assert(after =~= before.push(l));
            }
        }
        self.lines = lines;
    }

    /// Captures one line of a process's output, tagged with its stream as `[stream] line` and
    /// cut to its longest prefix of at most 16 KiB of UTF-8.
    pub fn capture(&mut self, stream: &str, line: &str)
        ensures
            exists|kept: Seq<char>| {
                &&& longest_fitting_prefix("["@ + stream@ + "] "@ + line@, kept, MAX_LOG_LINE_BYTES as nat)
                &&& final(self)@ == retained_lines(old(self)@.push(kept))
            },
            final(self)@.len() <= MAX_LOG_LINES,
    {
        let mut text = "[".to_owned();
        text.append(stream);
        text.append("] ");
        text.append(line);
        let kept = fitting_prefix(text.as_str(), MAX_LOG_LINE_BYTES);
        self.push(kept);
    }

    /// A copy of the retained lines, oldest first.
    pub fn lines(&self) -> (lines: Vec<String>)
        ensures
            lines@.map_values(|l: String| l@) == self@,
    {
        let mut out: Vec<String> = Vec::new();
        let mut i: usize = 0;
        while i < self.lines.len()
            invariant
                i <= self.lines@.len(),
                out@.len() == i,
                forall|j: int| 0 <= j < i ==> #[trigger] out@[j]@ == self.lines@[j]@,
            decreases self.lines@.len() - i,
        {
            out.push(self.lines[i].clone());
            i += 1;
        }
        assert(out@.map_values(|l: String| l@) =~= self@);
        out
    }
}

/// Appending lines one by one keeps exactly the newest 2,000 of all lines captured.
pub proof fn law_log_buffer_keeps_newest(all: Seq<Seq<char>>, line: Seq<char>)
    ensures
        retained_lines(retained_lines(all).push(line)) == retained_lines(all.push(line)),
        retained_lines(all.push(line)).len() <= MAX_LOG_LINES,
        retained_lines(all.push(line)).last() == line,
{
    let r = retained_lines(all);
    if all.len() <= MAX_LOG_LINES {
        assert(r == all);
    } else {
        assert(r.push(line) =~= all.push(line).subrange(all.len() - MAX_LOG_LINES as int, (all.len() + 1) as int));
        assert(retained_lines(r.push(line)) =~= retained_lines(all.push(line)));
    }
}


/// How running a probe command for its four seconds ended.
#[derive(Debug, Clone)]
pub enum ProbeRun {
    TimedOut,
    /// It could not be started, with the reason.
    NotStarted(String),
    /// It ended without success, with its exit status as shown.
    Failed(String),
    /// It succeeded, with what it wrote to standard output.
    Succeeded(Vec<u8>),
}

/// What a probe command yields: its output, trimmed, when it succeeded; otherwise a probe
/// error that names the command.
pub fn probe_output(executable: &str, run: ProbeRun) -> (result: Result<String, AppError>)
    ensures
        match run {
            ProbeRun::TimedOut => result matches Err(e) && is_error(e, ErrorKind::Probe, executable@ + " timed out"@),
            ProbeRun::NotStarted(m) => result matches Err(e) && is_error(e, ErrorKind::Probe, executable@ + " could not start: "@ + m@),
            ProbeRun::Failed(status) => result matches Err(e) && is_error(e, ErrorKind::Probe, executable@ + " exited with "@ + status@),
            ProbeRun::Succeeded(out) => result matches Ok(text) && text@ == trim_spec(lossy_decode(out@)),
        },
{
    match run {
        ProbeRun::TimedOut => Err(AppError::Probe(cat(executable, " timed out"))),
        ProbeRun::NotStarted(m) => {
            let mut text = cat(executable, " could not start: ");
            text.append(m.as_str());
            Err(AppError::Probe(text))
        },
        ProbeRun::Failed(status) => {
            let mut text = cat(executable, " exited with ");
            text.append(status.as_str());
            Err(AppError::Probe(text))
        },
        ProbeRun::Succeeded(out) => {
            let text = lossy_text(out.as_slice());
            Ok(trim(text.as_str()).to_owned())
        },
    }
}

/// A copy of a summary.
pub fn copy_summary(summary: &ProcessSummary) -> (copy: ProcessSummary)
    ensures
        copy == *summary,
{
    ProcessSummary {
        id: summary.id.clone(),
        label: summary.label.clone(),
        pid: summary.pid,
        state: summary.state,
        started_at: summary.started_at.clone(),
        ended_at: match &summary.ended_at {
            Some(t) => Some(t.clone()),
            None => None,
        },
        exit_code: summary.exit_code,
    }
}

// ---------------------------------------------------------------------------------------------
// Owned processes
/// The owned processes: each one's summary with the handle its owner keeps for it, by process
/// ID. An ID is held at most once.
pub struct ProcessTable<T> {
    entries: Vec<(ProcessSummary, T)>,
}

/// The IDs of a list of processes, in order.
pub open spec fn process_ids<T>(entries: Seq<(ProcessSummary, T)>) -> Seq<Seq<char>> {
    entries.map_values(|e: (ProcessSummary, T)| e.0.id@)
}

/// The processes as a map from ID to summary and handle.
pub open spec fn process_map<T>(entries: Seq<(ProcessSummary, T)>) -> Map<Seq<char>, (ProcessSummary, T)> {
    Map::new(
        |k: Seq<char>| process_ids(entries).contains(k),
        |k: Seq<char>| entries[process_ids(entries).index_of(k)],
    )
}

/// Replacing the entry at `i` by one with the same ID changes the map only at that ID.
proof fn lemma_replace_entry<T>(entries: Seq<(ProcessSummary, T)>, i: int, entry: (ProcessSummary, T))
    requires
        process_ids(entries).no_duplicates(),
        0 <= i < entries.len(),
        entry.0.id@ == entries[i].0.id@,
    ensures
        process_ids(entries.update(i, entry)) == process_ids(entries),
        process_map(entries.update(i, entry)) == process_map(entries).insert(entry.0.id@, entry),
{
    let ids = process_ids(entries);
    let after = entries.update(i, entry);
    assert(process_ids(after) =~= ids);
    lemma_index_of_unique(ids, i);
    assert forall|k: Seq<char>| #[trigger] ids.contains(k) && k != entry.0.id@ implies
        process_map(after)[k] == process_map(entries)[k] by {
        lemma_index_of_unique(ids, ids.index_of(k));
    }
    assert(process_map(after) =~= process_map(entries).insert(entry.0.id@, entry));
}

impl<T> ProcessTable<T> {
    #[verifier::type_invariant]
    closed spec fn ids_unique(self) -> bool {
        process_ids(self.entries@).no_duplicates()
    }

    /// The held processes by ID.
    pub closed spec fn processes(self) -> Map<Seq<char>, (ProcessSummary, T)> {
        process_map(self.entries@)
    }

    /// The IDs of the held processes in the order they are listed.
    pub closed spec fn order(self) -> Seq<Seq<char>> {
        process_ids(self.entries@)
    }

    pub fn new() -> (table: Self)
        ensures
            table.processes() == Map::<Seq<char>, (ProcessSummary, T)>::empty(),
    {
        let table = ProcessTable { entries: Vec::new() };
        assert(table.processes() =~= Map::<Seq<char>, (ProcessSummary, T)>::empty());
        table
    }

    fn find(&self, id: &str) -> (found: Option<usize>)
        ensures
            found matches Some(i) ==> i < self.entries@.len() && process_ids(self.entries@)[i as int] == id@,
            found is None ==> !process_ids(self.entries@).contains(id@),
    {
        let mut i: usize = 0;
        while i < self.entries.len()
            invariant
                i <= self.entries@.len(),
                forall|j: int| 0 <= j < i ==> process_ids(self.entries@)[j] != id@,
            decreases self.entries@.len() - i,
        {
            if str_eq(self.entries[i].0.id.as_str(), id) {
                return Some(i);
            }
            i += 1;
        }
        None
    }

    /// Holds a process under its summary's ID, handing back the one held there before, if any.
    pub fn insert(&mut self, summary: ProcessSummary, handle: T) -> (replaced: Option<(ProcessSummary, T)>)
        ensures
            final(self).processes() == old(self).processes().insert(summary.id@, (summary, handle)),
            old(self).processes().dom().contains(summary.id@) ==> replaced == Some(old(self).processes()[summary.id@]),
            !old(self).processes().dom().contains(summary.id@) ==> replaced is None,
    {
        proof { use_type_invariant(&*self); }
        let found = self.find(summary.id.as_str());
        let ghost before = self.entries@;
        let ghost ids = process_ids(before);
        let ghost key = summary.id@;
        let mut entries: Vec<(ProcessSummary, T)> = Vec::new();
        std::mem::swap(&mut entries, &mut self.entries);
        match found {
            Some(i) => {
                let old_entry = entries.remove(i);
                entries.insert(i, (summary, handle));
                proof {
                    assert(entries@ =~= before.update(i as int, (summary, handle)));
                    lemma_replace_entry(before, i as int, (summary, handle));
                    lemma_index_of_unique(ids, i as int);
                }
                self.entries = entries;
                Some(old_entry)
            },
            None => {
                let entry = (summary, handle);
                entries.push(entry);
                proof {
                    let after = entries@;
                    assert(process_ids(after) =~= ids.push(key));
                    assert forall|a: int, b: int| 0 <= a < process_ids(after).len() && 0 <= b < process_ids(after).len() && a != b
                        implies process_ids(after)[a] != process_ids(after)[b] by {
                        if a < ids.len() && b < ids.len() {
                        } else if a == ids.len() {
                            assert(ids[b] == process_ids(after)[b]);
                        } else {
                            assert(ids[a] == process_ids(after)[a]);
                        }
                    }
                    lemma_index_of_unique(process_ids(after), ids.len() as int);
                    assert forall|k: Seq<char>| #[trigger] ids.contains(k) implies
                        process_map(after)[k] == process_map(before)[k] && process_ids(after).contains(k) by {
                        let j = ids.index_of(k);
                        lemma_index_of_unique(ids, j);
                        assert(process_ids(after)[j] == k);
                        lemma_index_of_unique(process_ids(after), j);
                    }
                    assert forall|k: Seq<char>| #[trigger] process_ids(after).contains(k) implies k == key || ids.contains(k) by {
                        let j = choose|j: int| 0 <= j < process_ids(after).len() && process_ids(after)[j] == k;
                        if j < ids.len() {
                            assert(ids[j] == k);
                        }
                    }
                    assert(process_map(after) =~= process_map(before).insert(key, entry));
                }
                self.entries = entries;
                None
            },
        }
    }

    /// Lets go of a process and hands back its summary and handle; an ID that is not held is
    /// an error.
    pub fn remove(&mut self, id: &str) -> (result: Result<(ProcessSummary, T), AppError>)
        ensures
            old(self).processes().dom().contains(id@) ==> result == Ok::<(ProcessSummary, T), AppError>(old(self).processes()[id@])
                && final(self).processes() == old(self).processes().remove(id@),
            !old(self).processes().dom().contains(id@) ==> (result matches Err(e)
                && is_error(e, ErrorKind::Process, "owned process "@ + id@ + " was not found"@))
                && final(self).processes() == old(self).processes(),
    {
        proof { use_type_invariant(&*self); }
        let i = match self.find(id) {
            None => {
                let mut text = cat("owned process ", id);
                text.append(" was not found");
                return Err(AppError::Process(text));
            },
            Some(i) => i,
        };
        let ghost before = self.entries@;
        let ghost ids = process_ids(before);
        proof {
            assert(process_ids(before.remove(i as int)) =~= ids.remove(i as int));
        }
        let mut entries: Vec<(ProcessSummary, T)> = Vec::new();
        std::mem::swap(&mut entries, &mut self.entries);
        let entry = entries.remove(i);
        proof {
            let after = entries@;
            let rest = process_ids(after);
            assert(rest =~= ids.remove(i as int));
            assert forall|j: int| 0 <= j < rest.len() implies #[trigger] rest[j] == ids[if j < i { j } else { j + 1 }] by {}
            lemma_index_of_unique(ids, i as int);
            assert forall|k: Seq<char>| #[trigger] rest.contains(k) implies
                k != id@ && ids.contains(k) && process_map(after)[k] == process_map(before)[k] by {
                let j = rest.index_of(k);
                lemma_index_of_unique(rest, j);
                let o = if j < i { j } else { j + 1 };
                assert(ids[o] == k);
                lemma_index_of_unique(ids, o);
            }
            assert forall|k: Seq<char>| #[trigger] ids.contains(k) && k != id@ implies rest.contains(k) by {
                let o = ids.index_of(k);
                lemma_index_of_unique(ids, o);
                let j = if o < i { o } else { o - 1 };
                assert(rest[j] == k);
            }
            assert(process_map(after) =~= process_map(before).remove(id@));
        }
        self.entries = entries;
        Ok(entry)
    }

    /// The summary of a held process.
    pub fn summary(&self, id: &str) -> (found: Option<&ProcessSummary>)
        ensures
            self.processes().dom().contains(id@) ==> found == Some(&self.processes()[id@].0),
            !self.processes().dom().contains(id@) ==> found is None,
    {
        proof { use_type_invariant(self); }
        match self.find(id) {
            None => None,
            Some(i) => {
                proof { lemma_index_of_unique(process_ids(self.entries@), i as int); }
                Some(&self.entries[i].0)
            },
        }
    }

    /// The handle kept for a held process.
    pub fn handle(&self, id: &str) -> (found: Option<&T>)
        ensures
            self.processes().dom().contains(id@) ==> found == Some(&self.processes()[id@].1),
            !self.processes().dom().contains(id@) ==> found is None,
    {
        proof { use_type_invariant(self); }
        match self.find(id) {
            None => None,
            Some(i) => {
                proof { lemma_index_of_unique(process_ids(self.entries@), i as int); }
                Some(&self.entries[i].1)
            },
        }
    }

    /// Sets the state of a held process; `false` when the ID is not held.
    pub fn set_state(&mut self, id: &str, state: EngineLifecycle) -> (found: bool)
        ensures
            found == old(self).processes().dom().contains(id@),
            found ==> final(self).processes() == old(self).processes().insert(id@, (
                ProcessSummary { state, ..old(self).processes()[id@].0 },
                old(self).processes()[id@].1,
            )),
            !found ==> final(self).processes() == old(self).processes(),
    {
        proof { use_type_invariant(&*self); }
        let i = match self.find(id) {
            None => return false,
            Some(i) => i,
        };
        let ghost before = self.entries@;
        let mut entries: Vec<(ProcessSummary, T)> = Vec::new();
        std::mem::swap(&mut entries, &mut self.entries);
        let (mut summary, handle) = entries.remove(i);
        summary.state = state;
        let ghost entry = (summary, handle);
        entries.insert(i, (summary, handle));
        proof {
            assert(entries@ =~= before.update(i as int, entry));
            lemma_replace_entry(before, i as int, entry);
            lemma_index_of_unique(process_ids(before), i as int);
        }
        self.entries = entries;
        true
    }

    /// Records that a held process ended: its final state, exit code and end time; `false`
    /// when the ID is not held.
    pub fn record_exit(&mut self, id: &str, state: EngineLifecycle, exit_code: Option<i32>, ended_at: String) -> (found: bool)
        ensures
            found == old(self).processes().dom().contains(id@),
            found ==> final(self).processes() == old(self).processes().insert(id@, (
                ProcessSummary { state, exit_code, ended_at: Some(ended_at), ..old(self).processes()[id@].0 },
                old(self).processes()[id@].1,
            )),
            !found ==> final(self).processes() == old(self).processes(),
    {
        proof { use_type_invariant(&*self); }
        let i = match self.find(id) {
            None => return false,
            Some(i) => i,
        };
        let ghost before = self.entries@;
        let mut entries: Vec<(ProcessSummary, T)> = Vec::new();
        std::mem::swap(&mut entries, &mut self.entries);
        let (mut summary, handle) = entries.remove(i);
        summary.state = state;
        summary.exit_code = exit_code;
        summary.ended_at = Some(ended_at);
        let ghost entry = (summary, handle);
        entries.insert(i, (summary, handle));
        proof {
            assert(entries@ =~= before.update(i as int, entry));
            lemma_replace_entry(before, i as int, entry);
            lemma_index_of_unique(process_ids(before), i as int);
        }
        self.entries = entries;
        true
    }

    /// Copies of the summaries of all held processes, one per process, in listing order.
    pub fn summaries(&self) -> (all: Vec<ProcessSummary>)
        ensures
            self.order().no_duplicates(),
            forall|k: Seq<char>| self.processes().dom().contains(k) <==> self.order().contains(k),
            all@.len() == self.order().len(),
            forall|i: int| 0 <= i < all@.len() ==> #[trigger] all@[i] == self.processes()[self.order()[i]].0,
    {
        proof { use_type_invariant(self); }
        let mut all: Vec<ProcessSummary> = Vec::new();
        let mut i: usize = 0;
        while i < self.entries.len()
            invariant
                i <= self.entries@.len(),
                process_ids(self.entries@).no_duplicates(),
                all@.len() == i,
                forall|j: int| 0 <= j < i ==> #[trigger] all@[j] == self.entries@[j].0,
            decreases self.entries@.len() - i,
        {
            all.push(copy_summary(&self.entries[i].0));
            i += 1;
        }
        proof {
            assert forall|j: int| 0 <= j < all@.len() implies #[trigger] all@[j] == self.processes()[self.order()[j]].0 by {
                lemma_index_of_unique(process_ids(self.entries@), j);
            }
        }
        all
    }
}
} // verus!
