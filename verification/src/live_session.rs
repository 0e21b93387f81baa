//! The session that an agent process has open right now.

use vstd::prelude::*;

use crate::paths::{components, path_components};
use crate::text::{
    contains, ends_with, filled, filled_text, from_chars, has_suffix, is_ascii_hexdigit,
    is_hexdigit_ascii, lines, lowered, occurs, same_text, text_lines, to_ascii_lowercase, to_chars,
};

verus! {

/// The answer to a question for the processes of a pane.
#[derive(Debug)]
pub struct ProcessInfoEnvelope {
    pub result: Option<ProcessInfoResult>,
}

/// The result inside such an answer.
#[derive(Debug)]
pub struct ProcessInfoResult {
    pub process_info: Option<ProcessInfo>,
}

/// The processes in the foreground of a pane.
#[derive(Debug)]
pub struct ProcessInfo {
    pub foreground_process_group_id: Option<u32>,
    pub foreground_processes: Option<Vec<ForegroundProcess>>,
}

/// One process in the foreground of a pane.
#[derive(Debug)]
pub struct ForegroundProcess {
    pub pid: Option<u32>,
    pub cmdline: Option<String>,
    pub argv: Option<Vec<String>>,
}

/// The text names the agent: by its own name, or as a program called `agent`.
pub open spec fn names_agent(value: Seq<char>) -> bool {
    let lower = lowered(value);
    ||| occurs(lower, "cursor-agent"@)
    ||| occurs(lower, "/agent"@)
    ||| has_suffix(lower, " agent"@)
    ||| occurs(lower, "bin/agent"@)
}

/// Does the text name the agent?
pub fn looks_like_cursor_agent(value: &str) -> (r: bool)
    ensures
        r == names_agent(value@),
{
    let lower = to_ascii_lowercase(value);
    let lower = lower.as_str();
    contains(lower, "cursor-agent") || contains(lower, "/agent") || ends_with(lower, " agent")
        || contains(lower, "bin/agent")
}

/// The process runs the agent, by its command line or its first argument.
pub open spec fn runs_agent(process: ForegroundProcess) -> bool {
    ||| match process.cmdline {
        Some(cmdline) => names_agent(cmdline@),
        None => false,
    }
    ||| match process.argv {
        Some(argv) => argv@.len() > 0 && names_agent(argv@[0]@),
        None => false,
    }
}

/// Does the process run the agent?
fn process_runs_agent(process: &ForegroundProcess) -> (r: bool)
    ensures
        r == runs_agent(*process),
{
    if let Some(cmdline) = &process.cmdline {
        if looks_like_cursor_agent(cmdline.as_str()) {
            return true;
        }
    }
    match &process.argv {
        Some(argv) => argv.len() > 0 && looks_like_cursor_agent(argv[0].as_str()),
        None => false,
    }
}

/// The ids of the processes that run the agent; zero is no id. Nothing is
/// known where a process comes without an id.
pub open spec fn agent_process_ids(processes: Seq<ForegroundProcess>) -> Option<Seq<u32>>
    decreases processes.len(),
{
    if processes.len() == 0 {
        Some(seq![])
    } else {
        match (agent_process_ids(processes.drop_last()), processes.last().pid) {
            (Some(before), Some(pid)) => if pid != 0 && runs_agent(processes.last()) {
                Some(before.push(pid))
            } else {
                Some(before)
            },
            _ => None,
        }
    }
}

/// `pids`, and behind them the leader of the process group where it is known
/// and not among them.
pub open spec fn with_group_leader(pids: Seq<u32>, leader: Option<u32>) -> Seq<u32> {
    match leader {
        Some(leader) => if leader != 0 && !pids.contains(leader) {
            pids.push(leader)
        } else {
            pids
        },
        None => pids,
    }
}

/// The processes that may have a session open, the likely ones first.
pub open spec fn candidate_pids(info: ProcessInfo) -> Option<Seq<u32>> {
    match agent_process_ids(
        match info.foreground_processes {
            Some(processes) => processes@,
            None => seq![],
        },
    ) {
        Some(pids) => {
            let all = with_group_leader(pids, info.foreground_process_group_id);
            if all.len() == 0 {
                None
            } else {
                Some(all)
            }
        },
        None => None,
    }
}

/// One process without an id leaves nothing known of all of them.
proof fn lemma_missing_id(processes: Seq<ForegroundProcess>, i: int)
    requires
        0 <= i < processes.len(),
        processes[i].pid is None,
    ensures
        agent_process_ids(processes) is None,
    decreases processes.len(),
{
    if i < processes.len() - 1 {
        lemma_missing_id(processes.drop_last(), i);
    }
}

/// The ids of the processes that run the agent.
fn find_agent_processes(processes: &Vec<ForegroundProcess>) -> (r: Option<Vec<u32>>)
    ensures
        match r {
            Some(pids) => agent_process_ids(processes@) == Some(pids@),
            None => agent_process_ids(processes@) is None,
        },
{
    let mut pids: Vec<u32> = Vec::new();
    let mut i: usize = 0;
    assert(agent_process_ids(processes@.take(0)) == Some(pids@));
    while i < processes.len()
        invariant
            i <= processes@.len(),
            agent_process_ids(processes@.take(i as int)) == Some(pids@),
        decreases processes@.len() - i,
    {
        let process = &processes[i];
        assert(processes@.take(i + 1).drop_last() =~= processes@.take(i as int));
        assert(processes@.take(i + 1).last() == *process);
        let pid = match process.pid {
            Some(pid) => pid,
            None => {
                proof {
                    lemma_missing_id(processes@, i as int);
                }
                return None;
            },
        };
        if pid != 0 && process_runs_agent(process) {
            pids.push(pid);
        }
        i = i + 1;
    }
    assert(processes@.take(i as int) =~= processes@);
    Some(pids)
}

/// Is `pid` among `pids`?
fn has_pid(pids: &Vec<u32>, pid: u32) -> (r: bool)
    ensures
        r == pids@.contains(pid),
{
    let mut i: usize = 0;
    while i < pids.len()
        invariant
            i <= pids@.len(),
            forall|j: int| 0 <= j < i ==> pids@[j] != pid,
        decreases pids@.len() - i,
    {
        if pids[i] == pid {
            return true;
        }
        i = i + 1;
    }
    false
}

/// The processes that an answer leads to.
pub open spec fn envelope_pids(envelope: ProcessInfoEnvelope) -> Option<Seq<u32>> {
    match envelope.result {
        Some(result) => match result.process_info {
            Some(info) => candidate_pids(info),
            None => None,
        },
        None => None,
    }
}

/// The processes of a pane that may have a session open.
pub fn cursor_agent_pids_from_process_info(envelope: &ProcessInfoEnvelope) -> (r: Option<Vec<u32>>)
    ensures
        match r {
            Some(pids) => envelope_pids(*envelope) == Some(pids@),
            None => envelope_pids(*envelope) is None,
        },
{
    let info = match &envelope.result {
        Some(result) => match &result.process_info {
            Some(info) => info,
            None => {
                return None;
            },
        },
        None => {
            return None;
        },
    };
    let found = match &info.foreground_processes {
        Some(processes) => find_agent_processes(processes),
        None => Some(Vec::new()),
    };
    let mut pids = match found {
        Some(pids) => pids,
        None => {
            return None;
        },
    };
    assert(agent_process_ids(seq![]) == Some(Seq::<u32>::empty()));
    if let Some(leader) = info.foreground_process_group_id {
        if leader != 0 && !has_pid(&pids, leader) {
            pids.push(leader);
        }
    }
    if pids.len() == 0 {
        None
    } else {
        Some(pids)
    }
}

/// A text that can be the id of a session: hexadecimal digits and hyphens, at
/// least eight of them.
pub open spec fn is_session_id(id: Seq<char>) -> bool {
    &&& id.len() >= 8
    &&& forall|i: int| 0 <= i < id.len() ==> is_hexdigit_ascii(#[trigger] id[i]) || id[i] == '-'
}

/// Can the text be the id of a session?
pub fn is_plausible_session_id(session_id: &str) -> (r: bool)
    ensures
        r == is_session_id(session_id@),
{
    let chars = to_chars(session_id);
    let mut i: usize = 0;
    while i < chars.len()
        invariant
            i <= chars@.len(),
            chars@ == session_id@,
            forall|j: int|
                0 <= j < i ==> is_hexdigit_ascii(#[trigger] chars@[j]) || chars@[j] == '-',
        decreases chars@.len() - i,
    {
        if !is_ascii_hexdigit(chars[i]) && chars[i] != '-' {
            return false;
        }
        i = i + 1;
    }
    chars.len() >= 8
}

/// The session whose store the path leads to: the path ends in `chats`, some
/// directory, the id of the session and `store.db`.
pub open spec fn store_session(path: Seq<char>) -> Option<Seq<char>> {
    let parts = components(path);
    let n = parts.len() as int;
    if n >= 4 && parts[n - 1] == "store.db"@ && is_session_id(parts[n - 2]) && parts[n - 4]
        == "chats"@ {
        Some(parts[n - 2])
    } else {
        None
    }
}

/// The session whose store the path leads to.
pub fn session_id_from_chat_store_path(path: &str) -> (r: Option<String>)
    ensures
        r.deep_view() == store_session(path@),
{
    let parts = path_components(path);
    let n: usize = parts.len();
    let ghost all = parts.deep_view();
    assert(all.len() == n);
    if n < 4 {
        return None;
    }
    assert(all[n - 1] == parts@[n - 1]@);
    assert(all[n - 2] == parts@[n - 2]@);
    assert(all[n - 4] == parts@[n - 4]@);
    if !same_text(parts[n - 1].as_str(), "store.db") {
        return None;
    }
    if !is_plausible_session_id(parts[n - 2].as_str()) {
        return None;
    }
    if !same_text(parts[n - 4].as_str(), "chats") {
        return None;
    }
    Some(parts[n - 2].clone())
}

/// The session that the first of `targets` with one gives, among those before
/// the first that could not be read.
pub open spec fn targets_session(targets: Seq<Option<Seq<char>>>) -> Option<Seq<char>>
    decreases targets.len(),
{
    if targets.len() == 0 {
        None
    } else {
        match targets[0] {
            Some(path) => match store_session(path) {
                Some(id) => Some(id),
                None => targets_session(targets.drop_first()),
            },
            None => None,
        }
    }
}

/// The session that a process has open, by the targets of its file
/// descriptors; `None` stands for a target that could not be read.
pub fn session_id_from_linux_proc_fds(targets: &Vec<Option<String>>) -> (r: Option<String>)
    ensures
        r.deep_view() == targets_session(targets.deep_view()),
{
    let ghost all = targets.deep_view();
    let mut i: usize = 0;
    assert(all.skip(0) =~= all);
    while i < targets.len()
        invariant
            i <= targets@.len(),
            all == targets.deep_view(),
            targets_session(all) == targets_session(all.skip(i as int)),
        decreases targets@.len() - i,
    {
        assert(all.skip(i as int)[0] == targets@[i as int].deep_view());
        match &targets[i] {
            Some(path) => {
                if let Some(id) = session_id_from_chat_store_path(path.as_str()) {
                    return Some(id);
                }
            },
            None => {
                return None;
            },
        }
        assert(all.skip(i as int).drop_first() =~= all.skip(i + 1));
        i = i + 1;
    }
    None
}

/// The session that a line of the output of lsof gives: a name field, which
/// begins with `n`, holds a path.
pub open spec fn lsof_line_session(line: Seq<char>) -> Option<Seq<char>> {
    if line.len() > 0 && line[0] == 'n' {
        store_session(line.skip(1))
    } else {
        None
    }
}

/// The session that the first of `lines` with one gives.
pub open spec fn lsof_session(lines: Seq<Seq<char>>) -> Option<Seq<char>>
    decreases lines.len(),
{
    if lines.len() == 0 {
        None
    } else {
        match lsof_line_session(lines[0]) {
            Some(id) => Some(id),
            None => lsof_session(lines.drop_first()),
        }
    }
}

/// The session that a process has open, by the output of lsof.
pub fn session_id_from_lsof(stdout: &str) -> (r: Option<String>)
    ensures
        r.deep_view() == lsof_session(text_lines(stdout@)),
{
    let all_lines = lines(stdout);
    let ghost all = all_lines.deep_view();
    let mut i: usize = 0;
    assert(all.skip(0) =~= all);
    while i < all_lines.len()
        invariant
            i <= all_lines@.len(),
            all == all_lines.deep_view(),
            lsof_session(text_lines(stdout@)) == lsof_session(all.skip(i as int)),
        decreases all_lines@.len() - i,
    {
        let chars = to_chars(all_lines[i].as_str());
        assert(all.skip(i as int)[0] == chars@);
        if chars.len() > 0 && chars[0] == 'n' {
            let path = from_chars(&chars, 1, chars.len());
            assert(path@ =~= chars@.skip(1));
            if let Some(id) = session_id_from_chat_store_path(path.as_str()) {
                return Some(id);
            }
        }
        assert(all.skip(i as int).drop_first() =~= all.skip(i + 1));
        i = i + 1;
    }
    None
}

/// What to do next in the search for the session that an agent has open.
pub enum LiveStep<T> {
    /// Ask `herdr_bin` for the processes of the pane.
    ListProcesses { herdr_bin: T, pane_id: T },
    /// Read the file descriptors of this process.
    ReadFdLinks(u32),
    /// Ask lsof for the open files of this process.
    RunLsof(u32),
    /// The search is over, with this result.
    Finish(Option<T>),
}

impl LiveStep<String> {
    /// The step with the texts that it holds.
    pub open spec fn view(self) -> LiveStep<Seq<char>> {
        match self {
            LiveStep::ListProcesses { herdr_bin, pane_id } => LiveStep::ListProcesses {
                herdr_bin: herdr_bin@,
                pane_id: pane_id@,
            },
            LiveStep::ReadFdLinks(pid) => LiveStep::ReadFdLinks(pid),
            LiveStep::RunLsof(pid) => LiveStep::RunLsof(pid),
            LiveStep::Finish(found) => LiveStep::Finish(found.deep_view()),
        }
    }
}

/// The first step: the pane and the program to ask must both be known.
pub open spec fn search_start(
    pane_id: Option<Seq<char>>,
    herdr_bin: Option<Seq<char>>,
) -> LiveStep<Seq<char>> {
    match (filled(pane_id), filled(herdr_bin)) {
        (Some(pane_id), Some(herdr_bin)) => LiveStep::ListProcesses { herdr_bin, pane_id },
        _ => LiveStep::Finish(None),
    }
}

/// Begins the search for the session that the agent of a pane has open.
pub fn live_cursor_session_id(pane_id: Option<&str>, herdr_bin: Option<&str>) -> (r: LiveStep<
    String,
>)
    ensures
        r@ == search_start(pane_id.deep_view(), herdr_bin.deep_view()),
{
    match (filled_text(pane_id), filled_text(herdr_bin)) {
        (Some(pane_id), Some(herdr_bin)) => LiveStep::ListProcesses { herdr_bin, pane_id },
        _ => LiveStep::Finish(None),
    }
}

/// The step that turns to the process at index `at`, or ends the search where
/// there is none.
pub open spec fn search_process(pids: Seq<u32>, at: int) -> LiveStep<Seq<char>> {
    if at < pids.len() {
        LiveStep::ReadFdLinks(pids[at])
    } else {
        LiveStep::Finish(None)
    }
}

/// Turns to the process at index `at`.
pub fn probe_process(pids: &[u32], at: usize) -> (r: LiveStep<String>)
    ensures
        r@ == search_process(pids@, at as int),
{
    if at < pids.len() {
        LiveStep::ReadFdLinks(pids[at])
    } else {
        LiveStep::Finish(None)
    }
}

/// The step after the file descriptors of `pid` gave `found`.
pub open spec fn after_fd_links(pid: u32, found: Option<Seq<char>>) -> LiveStep<Seq<char>> {
    match found {
        Some(id) => LiveStep::Finish(Some(id)),
        None => LiveStep::RunLsof(pid),
    }
}

/// What the file descriptors of a process give; nothing where they could not
/// be listed.
pub open spec fn fd_links_session(targets: Option<Vec<Option<String>>>) -> Option<Seq<char>> {
    match targets {
        Some(targets) => targets_session(targets.deep_view()),
        None => None,
    }
}

/// Goes on with the targets of the file descriptors of `pid`, or with `None`
/// where they could not be listed: lsof is asked where they give no session.
pub fn session_id_from_process_fds(pid: u32, targets: Option<Vec<Option<String>>>) -> (r: LiveStep<
    String,
>)
    ensures
        r@ == after_fd_links(pid, fd_links_session(targets)),
{
    let found = match &targets {
        Some(targets) => session_id_from_linux_proc_fds(targets),
        None => None,
    };
    match found {
        Some(id) => LiveStep::Finish(Some(id)),
        None => LiveStep::RunLsof(pid),
    }
}

/// The step after lsof gave `found` for the process at index `at`.
pub open spec fn after_lsof(pids: Seq<u32>, at: int, found: Option<Seq<char>>) -> LiveStep<
    Seq<char>,
> {
    match found {
        Some(id) => LiveStep::Finish(Some(id)),
        None => search_process(pids, at + 1),
    }
}

/// What the output of lsof gives; nothing where there is none.
pub open spec fn lsof_output_session(stdout: Option<Seq<char>>) -> Option<Seq<char>> {
    match stdout {
        Some(stdout) => lsof_session(text_lines(stdout)),
        None => None,
    }
}

/// Goes on with the output of lsof for the process at index `at`, or with
/// `None` where there is none.
pub fn next_process(pids: &[u32], at: usize, stdout: Option<&str>) -> (r: LiveStep<String>)
    ensures
        r@ == after_lsof(pids@, at as int, lsof_output_session(stdout.deep_view())),
{
    let count: usize = pids.len();
    let found = match stdout {
        Some(stdout) => session_id_from_lsof(stdout),
        None => None,
    };
    match found {
        Some(id) => LiveStep::Finish(Some(id)),
        None => if at < count && at + 1 < count {
            LiveStep::ReadFdLinks(pids[at + 1])
        } else {
            LiveStep::Finish(None)
        },
    }
}

/// What following the steps from the process at index `at` on leads to, where
/// `fds` and `lsof` say what each process gives.
pub open spec fn search_outcome(
    pids: Seq<u32>,
    at: int,
    fds: spec_fn(u32) -> Option<Seq<char>>,
    lsof: spec_fn(u32) -> Option<Seq<char>>,
) -> Option<Seq<char>>
    decreases pids.len() - at,
{
    match search_process(pids, at) {
        LiveStep::ReadFdLinks(pid) => match after_fd_links(pid, fds(pid)) {
            LiveStep::RunLsof(pid) => match after_lsof(pids, at, lsof(pid)) {
                LiveStep::Finish(Some(id)) => Some(id),
                _ => search_outcome(pids, at + 1, fds, lsof),
            },
            LiveStep::Finish(found) => found,
            _ => None,
        },
        LiveStep::Finish(found) => found,
        _ => None,
    }
}

/// The search ends with a session exactly where some process gives one, and it
/// is the one of the first such process; of that process, the file descriptors
/// count before lsof.
pub proof fn law_search_finds_first(
    pids: Seq<u32>,
    fds: spec_fn(u32) -> Option<Seq<char>>,
    lsof: spec_fn(u32) -> Option<Seq<char>>,
)
    ensures
        match search_outcome(pids, 0, fds, lsof) {
            Some(id) => exists|k: int|
                #![trigger pids[k]]
                {
                    &&& 0 <= k < pids.len()
                    &&& fds(pids[k]) == Some(id) || (fds(pids[k]) is None && lsof(pids[k]) == Some(
                        id,
                    ))
                    &&& forall|j: int|
                        #![trigger pids[j]]
                        0 <= j < k ==> fds(pids[j]) is None && lsof(pids[j]) is None
                },
            None => forall|j: int|
                #![trigger pids[j]]
                0 <= j < pids.len() ==> fds(pids[j]) is None && lsof(pids[j]) is None,
        },
{
    lemma_search_from(pids, 0, fds, lsof);
}

proof fn lemma_search_from(
    pids: Seq<u32>,
    at: int,
    fds: spec_fn(u32) -> Option<Seq<char>>,
    lsof: spec_fn(u32) -> Option<Seq<char>>,
)
    requires
        0 <= at,
    ensures
        match search_outcome(pids, at, fds, lsof) {
            Some(id) => exists|k: int|
                #![trigger pids[k]]
                {
                    &&& at <= k < pids.len()
                    &&& fds(pids[k]) == Some(id) || (fds(pids[k]) is None && lsof(pids[k]) == Some(
                        id,
                    ))
                    &&& forall|j: int|
                        #![trigger pids[j]]
                        at <= j < k ==> fds(pids[j]) is None && lsof(pids[j]) is None
                },
            None => forall|j: int|
                #![trigger pids[j]]
                at <= j < pids.len() ==> fds(pids[j]) is None && lsof(pids[j]) is None,
        },
    decreases pids.len() - at,
{
    if at < pids.len() {
        let here = pids[at];
        lemma_search_from(pids, at + 1, fds, lsof);
        if fds(here) is None && lsof(here) is None {
            if let Some(id) = search_outcome(pids, at + 1, fds, lsof) {
                let k = choose|k: int|
                    #![trigger pids[k]]
                    {
                        &&& at + 1 <= k < pids.len()
                        &&& fds(pids[k]) == Some(id) || (fds(pids[k]) is None && lsof(pids[k])
                            == Some(id))
                        &&& forall|j: int|
                            #![trigger pids[j]]
                            at + 1 <= j < k ==> fds(pids[j]) is None && lsof(pids[j]) is None
                    };
                assert(at <= k < pids.len());
            }
        }
    }
}

/// Where there are processes to search, none of them has the id zero, and the
/// leader of the process group is among them where its id is known.
pub proof fn law_candidate_pids(info: ProcessInfo)
    ensures
        candidate_pids(info) matches Some(pids) ==> {
            &&& pids.len() > 0
            &&& forall|i: int| 0 <= i < pids.len() ==> #[trigger] pids[i] != 0
            &&& info.foreground_process_group_id matches Some(leader) ==> leader == 0
                || pids.contains(leader)
        },
{
    let processes = match info.foreground_processes {
        Some(processes) => processes@,
        None => seq![],
    };
    lemma_agent_ids_are_ids(processes);
    if let (Some(pids), Some(leader)) = (
        agent_process_ids(processes),
        info.foreground_process_group_id,
    ) {
        if leader != 0 && !pids.contains(leader) {
            assert(pids.push(leader)[pids.len() as int] == leader);
        }
    }
}

proof fn lemma_agent_ids_are_ids(processes: Seq<ForegroundProcess>)
    ensures
        agent_process_ids(processes) matches Some(pids) ==> forall|i: int|
            0 <= i < pids.len() ==> #[trigger] pids[i] != 0,
    decreases processes.len(),
{
    if processes.len() > 0 {
        lemma_agent_ids_are_ids(processes.drop_last());
    }
}

/// What file descriptors or lsof give is always the id of a session.
pub proof fn law_found_sessions_are_ids(targets: Seq<Option<Seq<char>>>, lines: Seq<Seq<char>>)
    ensures
        targets_session(targets) matches Some(id) ==> is_session_id(id),
        lsof_session(lines) matches Some(id) ==> is_session_id(id),
    decreases targets.len() + lines.len(),
{
    if targets.len() > 0 {
        law_found_sessions_are_ids(targets.drop_first(), lines);
    }
    if lines.len() > 0 {
        law_found_sessions_are_ids(targets, lines.drop_first());
    }
}

} // verus!
