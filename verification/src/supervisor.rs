//! Running several proxies side by side.

use vstd::prelude::*;
use vstd::string::*;

verus! {

/// How long to wait between two looks at the proxies, in milliseconds.
pub const POLL_MS: u64 = 50;

/// What a look at the proxies shows.
#[derive(Clone, Copy, Debug, PartialEq, Eq, Structural)]
pub enum Poll {
    /// There is none: nothing to wait for.
    AllDone,
    /// This one was the first to end. One that ends early means that its bind failed.
    Finished(usize),
    /// All are running.
    Running,
}

/// How a proxy ended.
#[derive(Clone, Copy, Debug, PartialEq, Eq, Structural)]
pub enum TaskEnd {
    /// As it should.
    Clean,
    /// With an error.
    Failed,
    /// It panicked.
    Panicked,
}

/// Which proxy ended first.
pub open spec fn first_to_end(n: usize, ended: Seq<usize>) -> Poll {
    if ended.len() > 0 {
        Poll::Finished(ended[0])
    } else if n == 0 {
        Poll::AllDone
    } else {
        Poll::Running
    }
}

/// Which of `n` proxies ended first, where `ended` are the places of those that have ended,
/// in the order in which they did.
pub fn wait_any(n: usize, ended: &Vec<usize>) -> (r: Poll)
    ensures
        r == first_to_end(n, ended@),
        ended@.len() > 0 ==> r == Poll::Finished(ended@[0]),
        ended@.len() == 0 && n == 0 ==> r == Poll::AllDone,
        ended@.len() == 0 && n > 0 ==> r == Poll::Running,
{
    if ended.len() > 0 {
        Poll::Finished(ended[0])
    } else if n == 0 {
        Poll::AllDone
    } else {
        Poll::Running
    }
}

/// Whether `r` is what a proxy's task came to.
pub open spec fn is_task_result(
    joined: Result<Result<(), String>, String>,
    r: Result<(), String>,
) -> bool {
    match joined {
        Ok(own) => r == own,
        Err(panic) => r matches Err(message) && message@ == "task panicked: "@ + panic@,
    }
}

/// What a proxy's task came to: its own result, or an error where it panicked.
pub fn task_result(joined: Result<Result<(), String>, String>) -> (r: Result<(), String>)
    ensures
        is_task_result(joined, r),
        match joined {
            Ok(own) => r == own,
            Err(panic) => r matches Err(message) && message@ == "task panicked: "@ + panic@,
        },
{
    match joined {
        Ok(own) => own,
        Err(panic) => Err("task panicked: ".to_owned().concat(panic.as_str())),
    }
}

/// Whether any of these ends is other than it should be.
pub open spec fn has_error(ends: Seq<TaskEnd>) -> bool {
    exists|i: int| 0 <= i < ends.len() && ends[i] != TaskEnd::Clean
}

/// Whether any proxy ended other than it should.
pub fn any_error(ends: &Vec<TaskEnd>) -> (r: bool)
    ensures
        r == has_error(ends@),
        r == exists|i: int| 0 <= i < ends@.len() && ends@[i] != TaskEnd::Clean,
{
    let mut i: usize = 0;
    while i < ends.len()
        invariant
            i <= ends@.len(),
            forall|j: int| 0 <= j < i ==> ends@[j] == TaskEnd::Clean,
        decreases ends@.len() - i,
    {
        if ends[i] != TaskEnd::Clean {
            return true;
        }
        i += 1;
    }
    false
}

/// Where to expose the metrics.
pub open spec fn address_to_use(flag: Option<String>, file: Option<String>) -> Option<String> {
    if flag is Some {
        flag
    } else {
        file
    }
}

/// Where to expose the metrics: where the command line says, else where the config file
/// says, else nowhere.
pub fn metrics_address(flag: Option<String>, file: Option<String>) -> (r: Option<String>)
    ensures
        r == address_to_use(flag, file),
        r == (if flag is Some {
            flag
        } else {
            file
        }),
{
    match flag {
        Some(addr) => Some(addr),
        None => file,
    }
}

// ── Laws ─────────────────────────────────────────────────────────────────────

/// The first proxy to end stays the first, whichever end after it; and as long as none
/// has ended there is something to wait for, unless there is no proxy.
pub proof fn law_first_to_end_is_found(n: usize, first: usize, later: Seq<usize>)
    ensures
        first_to_end(n, seq![first] + later) == Poll::Finished(first),
        n > 0 ==> first_to_end(n, Seq::empty()) == Poll::Running,
        first_to_end(0, Seq::empty()) == Poll::AllDone,
{
    assert((seq![first] + later)[0] == first);
}

/// A task's own result passes unchanged, and a panic is an error that says so.
pub proof fn law_task_results_pass_unchanged(
    own: Result<(), String>,
    panic: String,
    r: Result<(), String>,
)
    ensures
        is_task_result(Ok(own), r) <==> r == own,
        is_task_result(Err(panic), r) ==> (r matches Err(m) && m@ == "task panicked: "@ + panic@),
{
}

/// One bad end is enough, wherever it stands; with clean ends alone there is no error.
pub proof fn law_one_bad_end_is_enough(before: Seq<TaskEnd>, end: TaskEnd, after: Seq<TaskEnd>)
    ensures
        end == TaskEnd::Failed || end == TaskEnd::Panicked ==> has_error(before.push(end) + after),
        has_error(before.push(end)) <==> has_error(before) || end != TaskEnd::Clean,
        !has_error(Seq::empty()),
{
    let all = before.push(end) + after;
    assert(all[before.len() as int] == end);
    let some = before.push(end);
    assert(some[before.len() as int] == end);
    if has_error(before) {
        let i = choose|i: int| 0 <= i < before.len() && before[i] != TaskEnd::Clean;
        assert(some[i] != TaskEnd::Clean);
    }
    if has_error(some) && end == TaskEnd::Clean {
        let i = choose|i: int| 0 <= i < some.len() && some[i] != TaskEnd::Clean;
        assert(before[i] != TaskEnd::Clean);
    }
}

/// The flag beats the file, the file stands in where there is no flag, and without both
/// there is no exporter.
pub proof fn law_flag_beats_file(addr: String, other: Option<String>)
    ensures
        address_to_use(Some(addr), other) == Some(addr),
        address_to_use(None, Some(addr)) == Some(addr),
        address_to_use(None, None) is None,
{
}

/// The proxies are looked at twenty times a second.
pub proof fn law_looks_come_twenty_times_a_second()
    ensures
        20 * POLL_MS == 1000,
{
}

} // verus!
