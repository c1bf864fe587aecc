//! Running one compiled benchmark executable: where it finds its dynamic libraries, and the
//! decisions taken while it runs and talks to the runner.
use crate::text::{extend_strings, join_path, joined};
use vstd::prelude::*;

verus! {

/// A compiled benchmark executable.
#[derive(Debug, Clone)]
pub struct BenchTarget {
    pub name: String,
    pub executable: String,
}

impl View for BenchTarget {
    type V = (Seq<char>, Seq<char>);

    open spec fn view(&self) -> (Seq<char>, Seq<char>) {
        (self.name@, self.executable@)
    }
}

/// The operating systems whose dynamic linkers differ in the variable they search.
#[derive(Debug, Clone, Copy, PartialEq, Eq, Structural)]
pub enum Platform {
    Windows,
    MacOs,
    Other,
}

/// The environment variable that lists where the dynamic linker looks for libraries.
pub fn dylib_path_envvar(platform: Platform) -> (r: &'static str)
    ensures
        r@ == match platform {
            Platform::Windows => "PATH"@,
            Platform::MacOs => "DYLD_FALLBACK_LIBRARY_PATH"@,
            Platform::Other => "LD_LIBRARY_PATH"@,
        },
{
    match platform {
        Platform::Windows => "PATH",
        Platform::MacOs => "DYLD_FALLBACK_LIBRARY_PATH",
        Platform::Other => "LD_LIBRARY_PATH",
    }
}

/// The library search path given to a benchmark: the paths already in the environment, then the
/// paths that build scripts linked against. On macOS, when the environment listed none, the
/// linker's usual fallbacks follow: `lib` under the home directory, `/usr/local/lib`, `/usr/lib`.
pub open spec fn search_path(
    existing: Seq<Seq<char>>,
    linked: Seq<Seq<char>>,
    platform: Platform,
    home: Option<Seq<char>>,
) -> Seq<Seq<char>> {
    let home_lib: Seq<Seq<char>> = match home {
        Some(h) => seq![joined(h, "lib"@)],
        None => seq![],
    };
    let fallback: Seq<Seq<char>> = if platform == Platform::MacOs && existing.len() == 0 {
        home_lib + seq!["/usr/local/lib"@, "/usr/lib"@]
    } else {
        seq![]
    };
    existing + linked + fallback
}

/// The library search path keeps what the environment listed, in order, followed by the linked
/// paths in order; only on macOS, and only when the environment listed nothing, do the
/// linker's fallbacks follow (the home `lib` directory when the home is known, then
/// `/usr/local/lib` and `/usr/lib`). Elsewhere the search path is exactly the two lists.
pub proof fn law_search_path(
    existing: Seq<Seq<char>>,
    linked: Seq<Seq<char>>,
    platform: Platform,
    home: Option<Seq<char>>,
)
    ensures
        search_path(existing, linked, platform, home).subrange(0, (existing.len() + linked.len()) as int)
            == existing + linked,
        platform != Platform::MacOs ==> search_path(existing, linked, platform, home) == existing + linked,
        existing.len() > 0 ==> search_path(existing, linked, platform, home) == existing + linked,
        platform == Platform::MacOs && existing.len() == 0 ==> {
            let r = search_path(existing, linked, platform, home);
            &&& r.len() == linked.len() + 2 + (if home is Some { 1int } else { 0 })
            &&& r[r.len() - 2] == "/usr/local/lib"@
            &&& r[r.len() - 1] == "/usr/lib"@
            &&& (home matches Some(h) ==> r[linked.len() as int] == joined(h, "lib"@))
        },
{
    let r = search_path(existing, linked, platform, home);
    assert(r.subrange(0, (existing.len() + linked.len()) as int) =~= existing + linked);
    if platform != Platform::MacOs || existing.len() > 0 {
        assert(r =~= existing + linked);
    }
}

/// The entries of the library search path handed to a benchmark (see [`search_path`]).
pub fn dylib_search_path(
    existing: Vec<String>,
    linked_paths: &Vec<String>,
    platform: Platform,
    home: Option<String>,
) -> (r: Vec<String>)
    ensures
        r.deep_view() == search_path(existing.deep_view(), linked_paths.deep_view(), platform, home.deep_view()),
{
    let ghost existing_view = existing.deep_view();
    let existing_is_empty = existing.len() == 0;
    let mut paths = existing;
    extend_strings(&mut paths, linked_paths);
    let ghost before = paths.deep_view();
    if platform == Platform::MacOs && existing_is_empty {
        let mut fallback: Vec<String> = Vec::new();
        match &home {
            Some(h) => fallback.push(join_path(h.as_str(), "lib")),
            None => {},
        }
        fallback.push("/usr/local/lib".to_owned());
        fallback.push("/usr/lib".to_owned());
        let ghost home_part: Seq<Seq<char>> = match home.deep_view() {
            Some(h) => seq![joined(h, "lib"@)],
            None => seq![],
        };
        assert(fallback.deep_view() =~= home_part + seq!["/usr/local/lib"@, "/usr/lib"@]);
        extend_strings(&mut paths, &fallback);
    } else {
        assert(before + Seq::<Seq<char>>::empty() =~= before);
    }
    paths
}

/// The kinds of message a benchmark sends.
#[derive(Debug, Clone, Copy, PartialEq, Eq, Structural)]
pub enum MessageKind {
    BeginningBenchmarkGroup,
    FinishedBenchmarkGroup,
    BeginningBenchmark,
    SkippingBenchmark,
    Warmup,
    MeasurementStart,
    MeasurementComplete,
    FormattedValue,
    ScaledValues,
}

/// What the runner does about a message received between benchmarks.
#[derive(Debug, Clone, Copy, PartialEq, Eq, Structural)]
pub enum TargetAction {
    /// Warn if the group was already seen in another target.
    CheckGroup,
    /// Record the group as complete and summarize it; print a separator after it when
    /// `separator` is set.
    SummarizeGroup { separator: bool },
    /// Record the benchmark and run it.
    RunBenchmark,
    /// Record the benchmark, which is not run.
    RecordSkipped,
}

/// Whether a message may arrive between benchmarks.
pub open spec fn between_benchmarks(kind: MessageKind) -> bool {
    kind == MessageKind::BeginningBenchmarkGroup || kind == MessageKind::FinishedBenchmarkGroup
        || kind == MessageKind::BeginningBenchmark || kind == MessageKind::SkippingBenchmark
}

/// The state after a message received between benchmarks: a new group clears the record of run
/// benchmarks, a run benchmark sets it, other messages leave it.
pub open spec fn next_session(s: TargetSession, kind: MessageKind) -> TargetSession {
    if kind == MessageKind::BeginningBenchmarkGroup {
        TargetSession { any_from_group_executed: false }
    } else if kind == MessageKind::BeginningBenchmark {
        TargetSession { any_from_group_executed: true }
    } else {
        s
    }
}

/// The state after a sequence of messages received between benchmarks, from `s`.
pub open spec fn session_after(s: TargetSession, kinds: Seq<MessageKind>) -> TargetSession
    decreases kinds.len(),
{
    if kinds.len() == 0 {
        s
    } else {
        next_session(session_after(s, kinds.drop_last()), kinds.last())
    }
}

/// Whether a benchmark began since the last group began, in a sequence of messages.
pub open spec fn ran_since_group_began(kinds: Seq<MessageKind>) -> bool
    decreases kinds.len(),
{
    if kinds.len() == 0 {
        false
    } else if kinds.last() == MessageKind::BeginningBenchmarkGroup {
        false
    } else if kinds.last() == MessageKind::BeginningBenchmark {
        true
    } else {
        ran_since_group_began(kinds.drop_last())
    }
}

/// From the start of a conversation, a finished group is followed by a separator exactly when a
/// benchmark ran since the group (or the conversation) began.
pub proof fn law_separator_after_run_group(kinds: Seq<MessageKind>)
    ensures
        session_after(TargetSession { any_from_group_executed: false }, kinds).any_from_group_executed
            == ran_since_group_began(kinds),
    decreases kinds.len(),
{
    if kinds.len() > 0 {
        law_separator_after_run_group(kinds.drop_last());
    }
}

/// The state of the conversation with one benchmark target.
#[derive(Debug, Clone, Copy, PartialEq, Eq, Structural)]
pub struct TargetSession {
    /// Whether any benchmark of the current group has been run.
    pub any_from_group_executed: bool,
}

impl TargetSession {
    /// The state at the start of a conversation.
    pub fn new() -> (r: TargetSession)
        ensures
            !r.any_from_group_executed,
    {
        TargetSession { any_from_group_executed: false }
    }

    /// Handles a message received between benchmarks. A new group clears the record of run
    /// benchmarks, a run benchmark sets it, and a finished group is followed by a separator
    /// exactly when one of its benchmarks ran.
    pub fn on_message(&mut self, kind: MessageKind) -> (r: TargetAction)
        requires
            between_benchmarks(kind),
        ensures
            *final(self) == next_session(*old(self), kind),
            kind == MessageKind::BeginningBenchmarkGroup ==> r == TargetAction::CheckGroup
                && !final(self).any_from_group_executed,
            kind == MessageKind::FinishedBenchmarkGroup ==> r == (TargetAction::SummarizeGroup {
                separator: old(self).any_from_group_executed,
            }) && *final(self) == *old(self),
            kind == MessageKind::BeginningBenchmark ==> r == TargetAction::RunBenchmark
                && final(self).any_from_group_executed,
            kind == MessageKind::SkippingBenchmark ==> r == TargetAction::RecordSkipped
                && *final(self) == *old(self),
    {
        match kind {
            MessageKind::BeginningBenchmarkGroup => {
                self.any_from_group_executed = false;
                TargetAction::CheckGroup
            },
            MessageKind::FinishedBenchmarkGroup => TargetAction::SummarizeGroup {
                separator: self.any_from_group_executed,
            },
            MessageKind::BeginningBenchmark => {
                self.any_from_group_executed = true;
                TargetAction::RunBenchmark
            },
            _ => TargetAction::RecordSkipped,
        }
    }
}

/// What polling the benchmark process reported.
#[derive(Debug, Clone, Copy, PartialEq, Eq, Structural)]
pub enum ChildStatus {
    /// The process is still running.
    Running,
    /// The process exited, successfully or with the given code.
    Exited { success: bool, code: Option<i32> },
    /// The process could not be polled.
    PollFailed,
}

/// How the conversation with a benchmark target goes on.
#[derive(Debug, Clone, Copy, PartialEq, Eq, Structural)]
pub enum Next {
    /// Keep going.
    Continue,
    /// The benchmark closed the connection while its process still runs: poll the process
    /// until it exits.
    AwaitExit,
    /// The target is done and succeeded.
    Finished,
    /// The target exited with an error code.
    Failed { code: Option<i32> },
    /// The target's process could not be polled.
    PollError,
}

/// What an exited process, or a failed poll, makes of the conversation.
pub open spec fn ended(status: ChildStatus) -> Next {
    match status {
        ChildStatus::PollFailed => Next::PollError,
        ChildStatus::Exited { success: true, code: _ } => Next::Finished,
        ChildStatus::Exited { success: false, code } => Next::Failed { code },
        ChildStatus::Running => Next::Continue,
    }
}

/// How the conversation goes on after a message, or after the connection closed: a running
/// process goes on with the next message if one came, and is otherwise waited for.
pub open spec fn next_after_message(status: ChildStatus, message_was_some: bool) -> Next {
    match status {
        ChildStatus::Running => if message_was_some {
            Next::Continue
        } else {
            Next::AwaitExit
        },
        _ => ended(status),
    }
}

/// How the conversation goes on while the process is waited for after the connection closed.
pub open spec fn next_after_close(status: ChildStatus) -> Next {
    match status {
        ChildStatus::Running => Next::AwaitExit,
        _ => ended(status),
    }
}

/// After each message (or the end of the messages) the process is polled: an exited process
/// ends the conversation, successfully or not; a running process goes on with the next message
/// if one came, and is otherwise waited for until it exits.
pub fn after_message(status: ChildStatus, message_was_some: bool) -> (r: Next)
    ensures
        r == next_after_message(status, message_was_some),
{
    match status {
        ChildStatus::PollFailed => Next::PollError,
        ChildStatus::Exited { success, code } => if success {
            Next::Finished
        } else {
            Next::Failed { code }
        },
        ChildStatus::Running => if message_was_some {
            Next::Continue
        } else {
            Next::AwaitExit
        },
    }
}

/// Once the connection has closed, the process is polled until it exits; its exit status is
/// the result.
pub fn after_close(status: ChildStatus) -> (r: Next)
    ensures
        r == next_after_close(status),
{
    match status {
        ChildStatus::PollFailed => Next::PollError,
        ChildStatus::Exited { success, code } => if success {
            Next::Finished
        } else {
            Next::Failed { code }
        },
        ChildStatus::Running => Next::AwaitExit,
    }
}

/// The conversation with a benchmark target ends only when its process has exited (or cannot
/// be polled): it is finished exactly when the process exited successfully, and failed with the
/// process's exit code exactly when it exited unsuccessfully.
pub proof fn law_conversation_ends_with_exit(status: ChildStatus, message_was_some: bool)
    ensures
        (next_after_message(status, message_was_some) == Next::Finished) == (status matches ChildStatus::Exited { success: true, .. }),
        (next_after_close(status) == Next::Finished) == (status matches ChildStatus::Exited { success: true, .. }),
        status matches ChildStatus::Exited { success: false, code } ==> next_after_message(status, message_was_some) == (Next::Failed { code }) && next_after_close(status) == (Next::Failed { code }),
        status == ChildStatus::Running ==> next_after_message(status, message_was_some) != Next::Finished && next_after_close(status) == Next::AwaitExit,
{
}

/// While waiting for a target to connect, the process is polled: a process that exits without
/// connecting was not a Criterion.rs benchmark, and its exit status is the result.
pub fn while_waiting(status: ChildStatus) -> (r: Next)
    ensures
        r == ended(status),
{
    match status {
        ChildStatus::PollFailed => Next::PollError,
        ChildStatus::Exited { success, code } => if success {
            Next::Finished
        } else {
            Next::Failed { code }
        },
        ChildStatus::Running => Next::Continue,
    }
}

/// What the runner does about a message received while a benchmark runs.
#[derive(Debug, Clone, Copy, PartialEq, Eq, Structural)]
pub enum BenchmarkAction {
    /// Report the warm-up.
    ReportWarmup,
    /// Report that measuring has started.
    ReportMeasurementStart,
    /// Analyze the measurements (unless a sample took no time), save and report them; the
    /// benchmark is then done.
    Analyze,
}

/// Whether a message may arrive while a benchmark runs.
pub open spec fn during_benchmark(kind: MessageKind) -> bool {
    kind == MessageKind::Warmup || kind == MessageKind::MeasurementStart || kind
        == MessageKind::MeasurementComplete
}

/// The action for a message received while a benchmark runs.
pub fn benchmark_step(kind: MessageKind) -> (r: BenchmarkAction)
    requires
        during_benchmark(kind),
    ensures
        kind == MessageKind::Warmup ==> r == BenchmarkAction::ReportWarmup,
        kind == MessageKind::MeasurementStart ==> r == BenchmarkAction::ReportMeasurementStart,
        kind == MessageKind::MeasurementComplete ==> r == BenchmarkAction::Analyze,
{
    match kind {
        MessageKind::Warmup => BenchmarkAction::ReportWarmup,
        MessageKind::MeasurementStart => BenchmarkAction::ReportMeasurementStart,
        _ => BenchmarkAction::Analyze,
    }
}

} // verus!
