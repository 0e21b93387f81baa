//! What holds of the search for an open session.

use vstd::prelude::*;

use crate::live_session::{
    after_fd_links, after_lsof, agent_process_ids, candidate_pids, envelope_pids,
    fd_links_session, is_session_id, lsof_output_session, lsof_session, names_agent,
    search_process, search_start, store_session, targets_session, ForegroundProcess, LiveStep,
    ProcessInfo, ProcessInfoEnvelope,
};
use crate::path_laws::law_name_is_last_component;
use crate::paths::components;
use crate::text::{filled, has_suffix, is_hexdigit_ascii, lowered, occurs, text_lines};
use crate::text_laws::{law_lowered_parts, law_occurrence, law_parts_of_text};

verus! {

/// The id of a session is at least eight hexadecimal digits and hyphens.
pub proof fn law_session_id(id: Seq<char>)
    ensures
        is_session_id(id) <==> id.len() >= 8 && forall|i: int|
            0 <= i < id.len() ==> '0' <= #[trigger] id[i] <= '9' || 'a' <= id[i] <= 'f' || 'A'
                <= id[i] <= 'F' || id[i] == '-',
{
    if is_session_id(id) {
        assert forall|i: int| 0 <= i < id.len() implies '0' <= #[trigger] id[i] <= '9' || 'a'
            <= id[i] <= 'f' || 'A' <= id[i] <= 'F' || id[i] == '-' by {}
    }
}

/// A command runs the agent where it names it anywhere, where a program called
/// agent stands behind a slash, or where the agent is its last word, whatever
/// the case of the letters.
pub proof fn law_commands_of_agent(before: Seq<char>, name: Seq<char>, after: Seq<char>)
    requires
        lowered(name) == "cursor-agent"@ || lowered(name) == "/agent"@ || (lowered(name)
            == " agent"@ && after.len() == 0),
    ensures
        names_agent(before + name + after),
{
    let whole = before + name + after;
    law_lowered_parts(before + name, after);
    law_lowered_parts(before, name);
    assert(lowered(whole) =~= lowered(before) + lowered(name) + lowered(after));
    law_parts_of_text(lowered(before), lowered(name), lowered(after), seq![]);
    if after.len() == 0 {
        assert(lowered(whole) =~= lowered(before) + lowered(name));
    }
}

/// A command that has none of these does not run the agent.
pub proof fn law_other_commands(command: Seq<char>)
    requires
        !occurs(lowered(command), "cursor-agent"@),
        !occurs(lowered(command), "/agent"@),
        !has_suffix(lowered(command), " agent"@),
    ensures
        !names_agent(command),
{
    let lower = lowered(command);
    reveal_strlit("bin/agent");
    reveal_strlit("/agent");
    if occurs(lower, "bin/agent"@) {
        let (a, b) = law_occurrence(lower, "bin/agent"@);
        let bin = seq!['b', 'i', 'n'];
        assert("bin/agent"@ =~= bin + "/agent"@);
        assert(lower =~= (a + bin) + "/agent"@ + b);
        law_parts_of_text(a + bin, "/agent"@, b, seq![]);
    }
}

/// The process runs the agent: its command line names it, or the first of its
/// arguments does.
pub open spec fn is_agent(process: ForegroundProcess) -> bool {
    ||| process.cmdline is Some && names_agent(process.cmdline->0@)
    ||| process.argv is Some && process.argv->0@.len() > 0 && names_agent(process.argv->0@[0]@)
}

/// The ids of agents are those of the processes in order; a process gives its
/// id exactly where it runs the agent and the id is not zero, and one without
/// an id leaves nothing known.
pub proof fn law_ids_of_agents(
    a: Seq<ForegroundProcess>,
    b: Seq<ForegroundProcess>,
    process: ForegroundProcess,
)
    ensures
        agent_process_ids(a) is Some && agent_process_ids(b) is Some ==> agent_process_ids(a + b)
            == Some(agent_process_ids(a)->0 + agent_process_ids(b)->0),
        agent_process_ids(a) is None || agent_process_ids(b) is None ==> agent_process_ids(a + b)
            is None,
        agent_process_ids(seq![process]) == (match process.pid {
            None => None,
            Some(pid) => Some(
                if pid != 0 && is_agent(process) {
                    seq![pid]
                } else {
                    seq![]
                },
            ),
        }),
    decreases b.len(),
{
    reveal_with_fuel(agent_process_ids, 2);
    if b.len() == 0 {
        assert(a + b =~= a);
        if agent_process_ids(a) is Some {
            assert(agent_process_ids(a)->0 + agent_process_ids(b)->0 =~= agent_process_ids(a)->0);
        }
    } else {
        assert((a + b).drop_last() =~= a + b.drop_last());
        assert((a + b).last() == b.last());
        law_ids_of_agents(a, b.drop_last(), process);
        if agent_process_ids(a) is Some && agent_process_ids(b) is Some {
            assert(agent_process_ids(a + b)->0 =~= agent_process_ids(a)->0 + agent_process_ids(
                b,
            )->0);
        }
    }
    assert(seq![process].drop_last() =~= Seq::<ForegroundProcess>::empty());
    if let Some(pid) = process.pid {
        assert(Seq::<u32>::empty().push(pid) =~= seq![pid]);
    }
}

/// The processes to search are those of the agents, and behind them the leader
/// of their group, where it is known and not among them; there are some or
/// nothing is known.
pub proof fn law_processes_to_search(info: ProcessInfo, agents: Seq<u32>)
    requires
        info.foreground_processes is Some,
        agent_process_ids(info.foreground_processes->0@) == Some(agents),
    ensures
        ({
            let leader = info.foreground_process_group_id;
            let all = if leader is Some && leader->0 != 0 && !agents.contains(leader->0) {
                agents.push(leader->0)
            } else {
                agents
            };
            candidate_pids(info) == (if all.len() > 0 {
                Some(all)
            } else {
                None
            })
        }),
{
}

/// Without a list of processes the leader is the only one to search, and
/// without an answer there is none.
pub proof fn law_leader_alone(info: ProcessInfo, envelope: ProcessInfoEnvelope)
    requires
        info.foreground_processes is None,
    ensures
        info.foreground_process_group_id matches Some(leader) ==> (leader != 0 ==> candidate_pids(
            info,
        ) == Some(seq![leader])) && (leader == 0 ==> candidate_pids(info) is None),
        info.foreground_process_group_id is None ==> candidate_pids(info) is None,
        envelope.result is None || envelope.result->0.process_info is None ==> envelope_pids(
            envelope,
        ) is None,
        envelope.result is Some && envelope.result->0.process_info is Some ==> envelope_pids(
            envelope,
        ) == candidate_pids(envelope.result->0.process_info->0),
{
    if let Some(leader) = info.foreground_process_group_id {
        assert(Seq::<u32>::empty().push(leader) =~= seq![leader]);
    }
}

/// A store gives the id of the directory that it lies in, two levels below a
/// directory called chats.
pub proof fn law_store_gives_session(dir: Seq<char>, hash: Seq<char>, id: Seq<char>)
    requires
        dir.len() > 0,
        hash.len() > 0 && !hash.contains('/') && hash != seq!['.'],
        is_session_id(id),
    ensures
        store_session(
            dir + seq!['/'] + "chats"@ + seq!['/'] + hash + seq!['/'] + id + seq!['/']
                + "store.db"@,
        ) == Some(id),
{
    let chats = dir + seq!['/'] + "chats"@;
    let below = chats + seq!['/'] + hash;
    let session = below + seq!['/'] + id;
    lemma_fixed_names();
    lemma_id_is_name(id);
    law_name_is_last_component(dir, "chats"@);
    law_name_is_last_component(chats, hash);
    law_name_is_last_component(below, id);
    law_name_is_last_component(session, "store.db"@);
}

proof fn lemma_fixed_names()
    ensures
        "chats"@.len() > 0 && !"chats"@.contains('/') && "chats"@ != seq!['.'],
        "store.db"@.len() > 0 && !"store.db"@.contains('/') && "store.db"@ != seq!['.'],
{
    reveal_strlit("chats");
    reveal_strlit("store.db");
    assert(seq!['.'].len() == 1);
}

proof fn lemma_id_is_name(id: Seq<char>)
    requires
        is_session_id(id),
    ensures
        id.len() > 0 && !id.contains('/') && id != seq!['.'],
{
    assert(seq!['.'].len() == 1);
    if id.contains('/') {
        let i = choose|i: int| 0 <= i < id.len() && id[i] == '/';
        assert(is_hexdigit_ascii(id[i]) || id[i] == '-');
    }
}

/// What is called otherwise, lies under another name, or does not lie below
/// chats, gives no session.
pub proof fn law_other_paths_give_none(dir: Seq<char>, name: Seq<char>)
    requires
        dir.len() > 0,
        name.len() > 0 && !name.contains('/') && name != seq!['.'],
    ensures
        name != "store.db"@ ==> store_session(dir + seq!['/'] + name) is None,
        components(dir).len() > 0 && !is_session_id(components(dir)[components(dir).len() - 1])
            ==> store_session(dir + seq!['/'] + name) is None,
        components(dir).len() < 3 || components(dir)[components(dir).len() - 3] != "chats"@
            ==> store_session(dir + seq!['/'] + name) is None,
{
    law_name_is_last_component(dir, name);
}

/// The first of the open files that is a store gives the session, unless one
/// before it could not be read.
pub proof fn law_open_files(targets: Seq<Option<Seq<char>>>, k: int)
    requires
        0 <= k <= targets.len(),
        forall|j: int|
            0 <= j < k ==> (#[trigger] targets[j]) is Some && store_session(targets[j]->0) is None,
    ensures
        k == targets.len() ==> targets_session(targets) is None,
        k < targets.len() && targets[k] is None ==> targets_session(targets) is None,
        k < targets.len() && targets[k] is Some && store_session(targets[k]->0) is Some
            ==> targets_session(targets) == store_session(targets[k]->0),
    decreases targets.len(),
{
    if k > 0 {
        assert(targets[0] is Some && store_session(targets[0]->0) is None);
        let rest = targets.drop_first();
        assert forall|j: int| 0 <= j < k - 1 implies (#[trigger] rest[j]) is Some && store_session(
            rest[j]->0,
        ) is None by {
            assert(rest[j] == targets[j + 1]);
        }
        if k < targets.len() {
            assert(rest[k - 1] == targets[k]);
        }
        law_open_files(rest, k - 1);
    }
}

/// The line of lsof names a store.
pub open spec fn line_session(line: Seq<char>) -> Option<Seq<char>> {
    if line.len() > 0 && line[0] == 'n' {
        store_session(line.skip(1))
    } else {
        None
    }
}

/// The first line of lsof that names a store gives the session.
pub proof fn law_lsof(lines: Seq<Seq<char>>, k: int)
    requires
        0 <= k <= lines.len(),
        forall|j: int| 0 <= j < k ==> line_session(#[trigger] lines[j]) is None,
        k < lines.len() ==> line_session(lines[k]) is Some,
    ensures
        lsof_session(lines) == (if k < lines.len() {
            line_session(lines[k])
        } else {
            None
        }),
    decreases lines.len(),
{
    if k > 0 {
        assert(line_session(lines[0]) is None);
        let rest = lines.drop_first();
        assert forall|j: int| 0 <= j < k - 1 implies line_session(#[trigger] rest[j]) is None by {
            assert(rest[j] == lines[j + 1]);
        }
        if k < lines.len() {
            assert(rest[k - 1] == lines[k]);
        }
        law_lsof(rest, k - 1);
    }
}

/// The search asks for the processes of the pane where pane and program are
/// both named, goes from process to process without leaving one out, asks for
/// the open files of each first and lsof second, and ends with the first
/// session or behind the last process.
pub proof fn law_search_steps(
    pane_id: Option<Seq<char>>,
    herdr_bin: Option<Seq<char>>,
    pids: Seq<u32>,
    at: int,
    pid: u32,
    id: Seq<char>,
)
    requires
        0 <= at,
    ensures
        filled(pane_id) is Some && filled(herdr_bin) is Some ==> search_start(pane_id, herdr_bin)
            == (LiveStep::ListProcesses {
            herdr_bin: filled(herdr_bin)->0,
            pane_id: filled(pane_id)->0,
        }),
        filled(pane_id) is None || filled(herdr_bin) is None ==> search_start(pane_id, herdr_bin)
            == LiveStep::<Seq<char>>::Finish(None),
        search_process(pids, at) == (if at < pids.len() {
            LiveStep::<Seq<char>>::ReadFdLinks(pids[at])
        } else {
            LiveStep::Finish(None)
        }),
        after_fd_links(pid, Some(id)) == LiveStep::Finish(Some(id)),
        after_fd_links(pid, None) == LiveStep::<Seq<char>>::RunLsof(pid),
        after_lsof(pids, at, Some(id)) == LiveStep::Finish(Some(id)),
        after_lsof(pids, at, None) == (if at + 1 < pids.len() {
            LiveStep::<Seq<char>>::ReadFdLinks(pids[at + 1])
        } else {
            LiveStep::Finish(None)
        }),
{
}

/// What could not be listed or run gives no session; what was, gives what its
/// contents give.
pub proof fn law_search_results(targets: Vec<Option<String>>, stdout: Seq<char>)
    ensures
        fd_links_session(None) is None,
        fd_links_session(Some(targets)) == targets_session(targets.deep_view()),
        lsof_output_session(None) is None,
        lsof_output_session(Some(stdout)) == lsof_session(text_lines(stdout)),
{
}

} // verus!
