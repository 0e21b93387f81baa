//! What holds of the focus, of decisions and of the text of notifications.

use vstd::prelude::*;

use crate::focus::{
    agent_index, body_for_pane, bundle_decision, clears_on_focus, container_decision,
    context_body, cut_to, decision, display_name, double_quotes_escaped, enriched,
    first_filled_of, first_focused_id, first_focused_pane, focused_id, has_focus,
    law_display_name, law_focused_id, lemma_first_focused_id, lemma_items_are_smaller,
    listed_agent, listed_focus, nodes_in, nodes_in_all, notification_body, same_and_known,
    sits_in, trial_body, trial_pane, untagged, word_end, workspace_label, AgentInfo,
    AgentListEnvelope, Desktop, NotificationDecision, WorkspaceGetEnvelope,
};
use crate::json::{field_index, field_of, JsonTree};
use crate::notification::FocusNotification;
use crate::paths::name_of;
use crate::text::{filled, is_white_space, trimmed};
use crate::text_laws::{is_blank, is_tight, law_trim, law_trim_whole};

verus! {

/// Two texts are known and the same exactly where both are there and equal,
/// character for character.
pub proof fn law_same_and_known(a: Seq<char>, b: Seq<char>)
    ensures
        same_and_known(Some(a), Some(b)) <==> a == b,
        !same_and_known(None, Some(b)),
        !same_and_known(Some(a), None),
        !same_and_known(None, None),
{
}

/// On Linux a notification is left out exactly where the pane has the focus and
/// the container that is kept for it is the one with the focus; else it is sent.
pub proof fn law_decision_on_linux(
    pane_is_focused: bool,
    cached: Option<String>,
    current: Option<String>,
)
    ensures
        decision(pane_is_focused, Desktop::Linux { cached, current }) == (if pane_is_focused
            && cached is Some && current is Some && cached->0@ == current->0@ {
            NotificationDecision::Skip
        } else {
            NotificationDecision::Send
        }),
        clears_on_focus(Desktop::Linux { cached, current }),
{
}

/// Elsewhere a pane with the focus gets no notification where its application
/// is in front, is watched where another one is, and gets a plain notification
/// where either is not known.
pub proof fn law_decision_with_apps(
    pane_is_focused: bool,
    herdr: Option<String>,
    frontmost: Option<String>,
)
    ensures
        decision(pane_is_focused, Desktop::Apps { herdr, frontmost }) == (if pane_is_focused
            && herdr is Some && frontmost is Some {
            if herdr->0@ == frontmost->0@ {
                NotificationDecision::Skip
            } else {
                NotificationDecision::SendWithVisibilityMonitor
            }
        } else {
            NotificationDecision::Send
        }),
        clears_on_focus(Desktop::Apps { herdr, frontmost }) <==> herdr is Some && frontmost is Some
            && herdr->0@ == frontmost->0@,
{
}

/// The two halves of a decision agree with the whole of it.
pub proof fn law_decision_by_desktop(
    pane_is_focused: bool,
    a: Option<Seq<char>>,
    b: Option<Seq<char>>,
)
    ensures
        container_decision(pane_is_focused, a, b) == NotificationDecision::Skip <==> pane_is_focused
            && a is Some && b is Some && a->0 == b->0,
        container_decision(pane_is_focused, a, b)
            != NotificationDecision::SendWithVisibilityMonitor,
        bundle_decision(pane_is_focused, a, b) == NotificationDecision::Skip <==> pane_is_focused
            && a is Some && b is Some && a->0 == b->0,
        bundle_decision(pane_is_focused, a, b) == NotificationDecision::SendWithVisibilityMonitor
            <==> pane_is_focused && a is Some && b is Some && a->0 != b->0,
{
}

/// An object gives the value of the first field with a key, and nothing where
/// none has it; nothing else has fields.
pub proof fn law_field(fields: Seq<(Seq<char>, JsonTree)>, key: Seq<char>, k: int)
    requires
        0 <= k <= fields.len(),
        k < fields.len() ==> fields[k].0 == key,
        forall|j: int| 0 <= j < k ==> (#[trigger] fields[j]).0 != key,
    ensures
        field_of(JsonTree::Object(fields), key) == (if k < fields.len() {
            Some(fields[k].1)
        } else {
            None
        }),
        forall|tree: JsonTree| !(tree is Object) ==> #[trigger] field_of(tree, key) is None,
{
    lemma_field_found(fields, key, 0, k);
}

proof fn lemma_field_found(fields: Seq<(Seq<char>, JsonTree)>, key: Seq<char>, from: int, k: int)
    requires
        0 <= from <= k <= fields.len(),
        k < fields.len() ==> fields[k].0 == key,
        forall|j: int| from <= j < k ==> (#[trigger] fields[j]).0 != key,
    ensures
        field_index(fields, key, from) == k,
    decreases k - from,
{
    if from < k {
        assert(fields[from].0 != key);
        lemma_field_found(fields, key, from + 1, k);
    }
}

/// The id of a node of the sway tree is that of its field: a number or a text.
pub open spec fn goes_by(node: JsonTree, id: Seq<char>) -> bool {
    field_of(node, "id"@) == Some(JsonTree::Number(id)) || field_of(node, "id"@) == Some(
        JsonTree::Text(id),
    )
}

/// The first node with the focus, tiled before floating ones and each before
/// those below it, is the one that is found, where it has an id.
pub proof fn law_first_focused_node_is_found(node: JsonTree, k: int, id: Seq<char>)
    requires
        0 <= k < nodes_in(node).len(),
        has_focus(nodes_in(node)[k]),
        forall|j: int| 0 <= j < k ==> !has_focus(#[trigger] nodes_in(node)[j]),
        goes_by(nodes_in(node)[k], id),
    ensures
        focused_id(node) == Some(id),
    decreases node,
{
    let all = nodes_in(node);
    assert(all[0] == node);
    if k > 0 {
        assert(!has_focus(all[0]));
        lemma_items_are_smaller(node, "nodes"@);
        lemma_items_are_smaller(node, "floating_nodes"@);
        let tiled_items = match field_of(node, "nodes"@) {
            Some(JsonTree::Array(items)) => items,
            _ => seq![],
        };
        let floating_items = match field_of(node, "floating_nodes"@) {
            Some(JsonTree::Array(items)) => items,
            _ => seq![],
        };
        let tiled = nodes_in_all(tiled_items);
        let floating = nodes_in_all(floating_items);
        assert(all =~= seq![node] + tiled + floating);
        if k - 1 < tiled.len() {
            assert forall|j: int| 0 <= j < k - 1 implies !has_focus(#[trigger] tiled[j]) by {
                assert(tiled[j] == all[j + 1]);
            }
            assert(tiled[k - 1] == all[k]);
            lemma_first_in_list(tiled_items, k - 1, id);
        } else {
            assert forall|j: int| 0 <= j < tiled.len() implies !has_focus(#[trigger] tiled[j]) by {
                assert(tiled[j] == all[j + 1]);
            }
            lemma_first_focused_id(tiled_items);
            let m = k - 1 - tiled.len();
            assert forall|j: int| 0 <= j < m implies !has_focus(#[trigger] floating[j]) by {
                assert(floating[j] == all[j + 1 + tiled.len()]);
            }
            assert(floating[m] == all[k]);
            lemma_first_in_list(floating_items, m, id);
        }
    }
}

proof fn lemma_first_in_list(nodes: Seq<JsonTree>, k: int, id: Seq<char>)
    requires
        0 <= k < nodes_in_all(nodes).len(),
        has_focus(nodes_in_all(nodes)[k]),
        forall|j: int| 0 <= j < k ==> !has_focus(#[trigger] nodes_in_all(nodes)[j]),
        goes_by(nodes_in_all(nodes)[k], id),
    ensures
        first_focused_id(nodes) == Some(id),
    decreases nodes,
{
    let all = nodes_in_all(nodes);
    let first = nodes_in(nodes[0]);
    let rest = nodes_in_all(nodes.drop_first());
    assert(all =~= first + rest);
    if k < first.len() {
        assert forall|j: int| 0 <= j < k implies !has_focus(#[trigger] first[j]) by {
            assert(first[j] == all[j]);
        }
        assert(first[k] == all[k]);
        law_first_focused_node_is_found(nodes[0], k, id);
    } else {
        assert forall|j: int| 0 <= j < first.len() implies !has_focus(#[trigger] first[j]) by {
            assert(first[j] == all[j]);
        }
        law_focused_id(nodes[0]);
        let m = k - first.len();
        assert forall|j: int| 0 <= j < m implies !has_focus(#[trigger] rest[j]) by {
            assert(rest[j] == all[j + first.len()]);
        }
        assert(rest[m] == all[k]);
        lemma_first_in_list(nodes.drop_first(), m, id);
    }
}

/// Where some node has the focus, and every node with the focus has an id, an
/// id is found.
pub proof fn law_focus_is_found(node: JsonTree, k: int)
    requires
        0 <= k < nodes_in(node).len(),
        has_focus(nodes_in(node)[k]),
        forall|j: int|
            0 <= j < nodes_in(node).len() && has_focus(#[trigger] nodes_in(node)[j]) ==> exists|
                id: Seq<char>,
            | #[trigger]
                goes_by(nodes_in(node)[j], id),
    ensures
        focused_id(node) is Some,
    decreases k,
{
    if exists|j: int| 0 <= j < k && has_focus(#[trigger] nodes_in(node)[j]) {
        let j = choose|j: int| 0 <= j < k && has_focus(#[trigger] nodes_in(node)[j]);
        law_focus_is_found(node, j);
    } else {
        let id = choose|id: Seq<char>| #[trigger] goes_by(nodes_in(node)[k], id);
        law_first_focused_node_is_found(node, k, id);
    }
}

/// A node with the focus answers for all below it: with its id, or with
/// nothing where it has none.
pub proof fn law_focused_node_answers(node: JsonTree, id: Seq<char>)
    requires
        field_of(node, "focused"@) == Some(JsonTree::Bool(true)),
    ensures
        goes_by(node, id) ==> focused_id(node) == Some(id),
        !(field_of(node, "id"@) matches Some(JsonTree::Number(_))) && !(field_of(node, "id"@)
            matches Some(JsonTree::Text(_))) ==> focused_id(node) is None,
{
}

/// A node without the focus answers as its tiled and then its floating nodes do.
pub proof fn law_other_node_asks_below(
    node: JsonTree,
    tiled: Seq<JsonTree>,
    floating: Seq<JsonTree>,
)
    requires
        field_of(node, "focused"@) != Some(JsonTree::Bool(true)),
        match field_of(node, "nodes"@) {
            Some(JsonTree::Array(items)) => items == tiled,
            _ => tiled.len() == 0,
        },
        match field_of(node, "floating_nodes"@) {
            Some(JsonTree::Array(items)) => items == floating,
            _ => floating.len() == 0,
        },
    ensures
        focused_id(node) == first_focused_id(tiled + floating),
{
    law_first_answer_counts(tiled, floating);
    assert(first_focused_id(seq![]) is None);
    if tiled.len() == 0 {
        assert(tiled =~= seq![]);
    }
    if floating.len() == 0 {
        assert(floating =~= seq![]);
    }
}

/// Of two lists of nodes, the first answer counts.
pub proof fn law_first_answer_counts(a: Seq<JsonTree>, b: Seq<JsonTree>)
    ensures
        first_focused_id(a + b) == (if first_focused_id(a) is Some {
            first_focused_id(a)
        } else {
            first_focused_id(b)
        }),
        forall|node: JsonTree| first_focused_id(#[trigger] seq![node]) == focused_id(node),
    decreases a.len(),
{
    if a.len() == 0 {
        assert(a + b =~= b);
    } else {
        assert((a + b)[0] == a[0]);
        assert((a + b).drop_first() =~= a.drop_first() + b);
        law_first_answer_counts(a.drop_first(), b);
    }
    assert forall|node: JsonTree| first_focused_id(#[trigger] seq![node]) == focused_id(node) by {
        assert(seq![node].drop_first() =~= Seq::<JsonTree>::empty());
        assert(first_focused_id(Seq::<JsonTree>::empty()) is None);
    }
}

/// The agent for a pane is the first in the list whose pane, without white
/// space around it, is that one.
pub proof fn law_agent_of_pane(envelope: AgentListEnvelope, pane_id: Seq<char>, k: int)
    requires
        envelope.result is Some,
        ({
            let agents = envelope.result->0.agents@;
            &&& 0 <= k <= agents.len()
            &&& k < agents.len() ==> agents[k].pane_id is Some && trimmed(agents[k].pane_id->0@)
                == pane_id
            &&& forall|j: int|
                0 <= j < k ==> (#[trigger] agents[j]).pane_id is None || trimmed(
                    agents[j].pane_id->0@,
                ) != pane_id
        }),
    ensures
        listed_agent(envelope, pane_id) == (if k < envelope.result->0.agents@.len() {
            Some(envelope.result->0.agents@[k])
        } else {
            None
        }),
{
    lemma_agent_found(envelope.result->0.agents@, pane_id, 0, k);
}

proof fn lemma_agent_found(agents: Seq<AgentInfo>, pane_id: Seq<char>, from: int, k: int)
    requires
        0 <= from <= k <= agents.len(),
        k < agents.len() ==> agents[k].pane_id is Some && trimmed(agents[k].pane_id->0@) == pane_id,
        forall|j: int|
            from <= j < k ==> (#[trigger] agents[j]).pane_id is None || trimmed(
                agents[j].pane_id->0@,
            ) != pane_id,
    ensures
        agent_index(agents, pane_id, from) == k,
    decreases k - from,
{
    if from < k {
        assert(!sits_in(agents[from], pane_id));
        lemma_agent_found(agents, pane_id, from + 1, k);
    }
}

/// The pane with the focus is that of the first agent in the list that has the
/// focus and names a pane.
pub proof fn law_first_pane_with_focus(agents: Seq<AgentInfo>, k: int)
    requires
        0 <= k <= agents.len(),
        k < agents.len() ==> agents[k].focused && filled(agents[k].pane_id.deep_view()) is Some,
        forall|j: int|
            0 <= j < k ==> !(#[trigger] agents[j]).focused || filled(agents[j].pane_id.deep_view())
                is None,
    ensures
        first_focused_pane(agents) == (if k < agents.len() {
            filled(agents[k].pane_id.deep_view())
        } else {
            None
        }),
    decreases agents.len(),
{
    if agents.len() > 0 && k > 0 {
        assert(!agents[0].focused || filled(agents[0].pane_id.deep_view()) is None);
        let rest = agents.drop_first();
        assert forall|j: int| 0 <= j < k - 1 implies !(#[trigger] rest[j]).focused || filled(
            rest[j].pane_id.deep_view(),
        ) is None by {
            assert(rest[j] == agents[j + 1]);
        }
        if k < agents.len() {
            assert(rest[k - 1] == agents[k]);
        }
        law_first_pane_with_focus(rest, k - 1);
    }
}

/// The label of a workspace is the one that the answer names, where it is not
/// blank.
pub proof fn law_workspace_label(envelope: WorkspaceGetEnvelope)
    ensures
        workspace_label(envelope) == (if envelope.result is Some
            && envelope.result->0.workspace is Some {
            filled(envelope.result->0.workspace->0.label.deep_view())
        } else {
            None
        }),
{
}

/// Whatever has the most to say: the first value that is there and not blank.
pub proof fn law_first_filled(values: Seq<Option<Seq<char>>>, k: int)
    requires
        0 <= k <= values.len(),
        k < values.len() ==> filled(values[k]) is Some,
        forall|j: int| 0 <= j < k ==> filled(#[trigger] values[j]) is None,
    ensures
        first_filled_of(values) == (if k < values.len() {
            filled(values[k])
        } else {
            None
        }),
    decreases values.len(),
{
    if values.len() > 0 && k > 0 {
        assert(filled(values[0]) is None);
        let rest = values.drop_first();
        assert forall|j: int| 0 <= j < k - 1 implies filled(#[trigger] rest[j]) is None by {
            assert(rest[j] == values[j + 1]);
        }
        if k < values.len() {
            assert(rest[k - 1] == values[k]);
        }
        law_first_filled(rest, k - 1);
    }
}

/// What a body shows of a text: at most a hundred and twenty characters, the
/// last three of them dots where the text has more.
pub open spec fn fitted(text: Seq<char>) -> Seq<char> {
    if text.len() <= 120 {
        text
    } else {
        text.take(117) + seq!['.', '.', '.']
    }
}

/// A text is fitted into any number of characters in this way; three dots are
/// all that is left of one that is too long for less than three.
pub proof fn law_cut_to_fit(before: Seq<char>, kept: Seq<char>, after: Seq<char>, max: nat)
    requires
        is_blank(before),
        is_blank(after),
        is_tight(kept),
    ensures
        kept.len() <= max ==> cut_to(before + kept + after, max) == kept,
        kept.len() > max >= 3 ==> cut_to(before + kept + after, max) == kept.take(max - 3) + seq![
            '.',
            '.',
            '.',
        ],
        kept.len() > max && max < 3 ==> cut_to(before + kept + after, max) == seq!['.', '.', '.'],
{
    law_trim(before, kept, after);
    reveal_strlit("...");
    assert("..."@ =~= seq!['.', '.', '.']);
    if kept.len() > max && max < 3 {
        assert(kept.take(0) + "..."@ =~= "..."@);
    }
}

/// The body of a notification is the name and the text behind a dot in the
/// middle, or whichever of them is there.
pub proof fn law_body(
    name: Option<Seq<char>>,
    answer_preview: Option<Seq<char>>,
    session_title: Option<Seq<char>>,
    text: Option<Seq<char>>,
)
    requires
        name is Some ==> is_tight(name->0),
        text == (if filled(answer_preview) is Some {
            filled(answer_preview)
        } else {
            filled(session_title)
        }),
    ensures
        notification_body(name, answer_preview, session_title) == (match (name, text) {
            (Some(name), Some(text)) => Some(fitted(name + seq![' ', '·', ' '] + text)),
            (Some(name), None) => Some(fitted(name)),
            (None, Some(text)) => Some(fitted(text)),
            (None, None) => None,
        }),
{
    reveal_with_fuel(first_filled_of, 3);
    let choices = seq![answer_preview, session_title];
    assert(choices.drop_first() =~= seq![session_title]);
    reveal_strlit(" · ");
    assert(" · "@ =~= seq![' ', '·', ' ']);
    lemma_filled_is_tight(answer_preview);
    lemma_filled_is_tight(session_title);
    assert(first_filled_of(choices) == text);
    if let Some(name) = name {
        lemma_fitted(name);
        if let Some(text) = text {
            let whole = name + " · "@ + text;
            assert(whole[0] == name[0]);
            assert(whole[whole.len() - 1] == text[text.len() - 1]);
            lemma_fitted(whole);
        }
    } else if let Some(text) = text {
        lemma_fitted(text);
    }
}

proof fn lemma_fitted(text: Seq<char>)
    requires
        is_tight(text),
    ensures
        cut_to(text, 120) == fitted(text),
{
    law_cut_to_fit(seq![], text, seq![], 120);
    assert(Seq::<char>::empty() + text + Seq::<char>::empty() =~= text);
}

proof fn lemma_filled_is_tight(value: Option<Seq<char>>)
    ensures
        filled(value) is Some ==> is_tight(filled(value)->0),
{
    if let Some(text) = value {
        law_trim_whole(text);
    }
}

/// The body for an agent: its name is that of the workspace, or else the last
/// name of its directory; its text is the preview of the answer, or else the
/// title without decoration, or else the title as it is.
pub proof fn law_body_of_agent(
    agent: AgentInfo,
    label: Option<Seq<char>>,
    answer_preview: Option<Seq<char>>,
    name: Option<Seq<char>>,
    text: Option<Seq<char>>,
)
    requires
        name == (if filled(label) is Some {
            display_name(label->0)
        } else if filled(agent.cwd.deep_view()) is Some {
            filled(name_of(filled(agent.cwd.deep_view())->0))
        } else {
            None
        }),
        text == (if filled(answer_preview) is Some {
            filled(answer_preview)
        } else if filled(agent.terminal_title_stripped.deep_view()) is Some {
            filled(agent.terminal_title_stripped.deep_view())
        } else {
            filled(agent.terminal_title.deep_view())
        }),
    ensures
        context_body(agent, label, answer_preview) == (match (name, text) {
            (Some(name), Some(text)) => Some(fitted(name + seq![' ', '·', ' '] + text)),
            (Some(name), None) => Some(fitted(name)),
            (None, Some(text)) => Some(fitted(text)),
            (None, None) => None,
        }),
{
    let cwd_name = match filled(agent.cwd.deep_view()) {
        Some(cwd) => name_of(cwd),
        None => None,
    };
    let workspace_name = match label {
        Some(label) => display_name(label),
        None => None,
    };
    let stripped = agent.terminal_title_stripped.deep_view();
    let plain = agent.terminal_title.deep_view();
    lemma_two_choices(workspace_name, cwd_name);
    lemma_two_choices(stripped, plain);
    if let Some(label) = label {
        law_display_name(label);
        law_trim_whole(label);
    }
    let project = first_filled_of(seq![workspace_name, cwd_name]);
    let title = first_filled_of(seq![stripped, plain]);
    lemma_filled_is_tight(workspace_name);
    lemma_filled_is_tight(cwd_name);
    lemma_filled_is_tight(stripped);
    lemma_filled_is_tight(plain);
    if let Some(title) = title {
        law_trim_whole(title);
    }
    assert(project == name);
    law_body(name, answer_preview, title, text);
}

proof fn lemma_two_choices(a: Option<Seq<char>>, b: Option<Seq<char>>)
    ensures
        first_filled_of(seq![a, b]) == (if filled(a) is Some {
            filled(a)
        } else {
            filled(b)
        }),
{
    reveal_with_fuel(first_filled_of, 3);
    assert(seq![a, b].drop_first() =~= seq![b]);
}

/// Where the title without decoration is there and not blank, the title as it
/// is makes no difference; where it is missing or blank, the other one decides.
pub proof fn law_stripped_title_before_plain(
    agent: AgentInfo,
    other: AgentInfo,
    label: Option<Seq<char>>,
    answer_preview: Option<Seq<char>>,
)
    requires
        agent.cwd == other.cwd,
    ensures
        filled(agent.terminal_title_stripped.deep_view()) is Some && agent.terminal_title_stripped
            == other.terminal_title_stripped ==> context_body(agent, label, answer_preview)
            == context_body(other, label, answer_preview),
        filled(agent.terminal_title_stripped.deep_view()) is None && filled(
            other.terminal_title_stripped.deep_view(),
        ) is None && agent.terminal_title == other.terminal_title ==> context_body(
            agent,
            label,
            answer_preview,
        ) == context_body(other, label, answer_preview),
{
    lemma_two_choices(
        agent.terminal_title_stripped.deep_view(),
        agent.terminal_title.deep_view(),
    );
    lemma_two_choices(
        other.terminal_title_stripped.deep_view(),
        other.terminal_title.deep_view(),
    );
}

proof fn lemma_word_ends(s: Seq<char>, from: int, at: int)
    requires
        0 <= from <= at <= s.len(),
        at < s.len() ==> is_white_space(s[at]),
        forall|j: int| from <= j < at ==> !is_white_space(#[trigger] s[j]),
    ensures
        word_end(s, from) == at,
    decreases at - from,
{
    if from < at {
        assert(!is_white_space(s[from]));
        lemma_word_ends(s, from + 1, at);
    }
}

/// A tag of one word and a colon is taken off a label, where white space and a
/// name follow; white space around the label does not matter.
pub proof fn law_tagged_label(
    before: Seq<char>,
    tag: Seq<char>,
    gap: Seq<char>,
    name: Seq<char>,
    after: Seq<char>,
)
    requires
        is_blank(before) && is_blank(after),
        tag.len() > 0,
        forall|i: int| 0 <= i < tag.len() ==> !is_white_space(#[trigger] tag[i]),
        gap.len() > 0 && is_blank(gap),
        is_tight(name),
    ensures
        display_name(before + (tag + seq![':'] + gap + name) + after) == Some(name),
{
    let label = tag + seq![':'] + gap + name;
    let end = tag.len() + 1;
    assert(label[0] == tag[0]);
    assert(label[label.len() - 1] == name[name.len() - 1]);
    law_trim(before, label, after);
    assert forall|j: int| 0 <= j < end implies !is_white_space(#[trigger] label[j]) by {
        if j < tag.len() {
            assert(label[j] == tag[j]);
        }
    }
    assert(label[end as int] == gap[0]);
    lemma_word_ends(label, 0, end as int);
    assert(label.skip(end as int) =~= gap + name + Seq::<char>::empty());
    law_trim(gap, name, seq![]);
    assert(untagged(label) == Some(name));
}

/// A label whose first word is no tag is the name itself: the word does not end
/// in a colon, or is nothing but one, or nothing follows it.
pub proof fn law_untagged_label(
    before: Seq<char>,
    word: Seq<char>,
    rest: Seq<char>,
    after: Seq<char>,
)
    requires
        is_blank(before) && is_blank(after),
        word.len() > 0,
        forall|i: int| 0 <= i < word.len() ==> !is_white_space(#[trigger] word[i]),
        rest.len() > 0 ==> is_white_space(rest[0]) && !is_white_space(rest[rest.len() - 1]),
        word[word.len() - 1] != ':' || word.len() == 1 || rest.len() == 0,
    ensures
        display_name(before + (word + rest) + after) == Some(word + rest),
        display_name(before) is None,
{
    let label = word + rest;
    assert(label[0] == word[0]);
    if rest.len() > 0 {
        assert(label[label.len() - 1] == rest[rest.len() - 1]);
        assert(label[word.len() as int] == rest[0]);
    } else {
        assert(label[label.len() - 1] == word[word.len() - 1]);
    }
    law_trim(before, label, after);
    assert forall|j: int| 0 <= j < word.len() implies !is_white_space(#[trigger] label[j]) by {
        assert(label[j] == word[j]);
    }
    lemma_word_ends(label, 0, word.len() as int);
    assert(label[word.len() - 1] == word[word.len() - 1]);
    law_trim_whole(before);
}

/// A double quote gets a backslash before it, and nothing else changes.
pub proof fn law_double_quotes_are_escaped(a: Seq<char>, b: Seq<char>, c: char)
    ensures
        double_quotes_escaped(a + b) == double_quotes_escaped(a) + double_quotes_escaped(b),
        double_quotes_escaped(seq![c]) == (if c == '"' {
            seq!['\\', '"']
        } else {
            seq![c]
        }),
    decreases b.len(),
{
    reveal_with_fuel(double_quotes_escaped, 2);
    if b.len() == 0 {
        assert(a + b =~= a);
        assert(double_quotes_escaped(a) + double_quotes_escaped(b) =~= double_quotes_escaped(a));
    } else {
        assert((a + b).drop_last() =~= a + b.drop_last());
        law_double_quotes_are_escaped(a, b.drop_last(), c);
        assert(double_quotes_escaped(a + b) =~= double_quotes_escaped(a) + double_quotes_escaped(
            b,
        ));
    }
    assert(seq![c].drop_last() =~= Seq::<char>::empty());
    assert(double_quotes_escaped(seq![c]) =~= (if c == '"' {
        seq!['\\', '"']
    } else {
        seq![c]
    }));
}

/// A known body replaces that of a notification, and nothing else of it
/// changes; without one, nothing changes.
pub proof fn law_enriched(notification: FocusNotification, body: String)
    ensures
        enriched(notification, None) == notification,
        ({
            let rich = enriched(notification, Some(body));
            &&& rich.body == body
            &&& rich.pane_id == notification.pane_id
            &&& rich.workspace_id == notification.workspace_id
            &&& rich.status == notification.status
            &&& rich.title == notification.title
            &&& rich.group == notification.group
            &&& rich.app_icon == notification.app_icon
        }),
{
}

/// The way is tried out for the focused pane, or for a made-up one, and what
/// is said names the program and the pane.
pub proof fn law_trial(herdr_bin: Seq<char>, pane_id: Seq<char>)
    ensures
        trial_pane(Some(pane_id)) == pane_id,
        trial_pane(None) == "test-pane"@,
        trial_body(herdr_bin, pane_id) == "Click to run: "@ + herdr_bin + " agent focus "@
            + pane_id,
{
}

/// The body for a pane is that of its agent, and a pane without one has none;
/// without an answer nothing is known.
pub proof fn law_body_for_pane(
    envelope: AgentListEnvelope,
    pane_id: Seq<char>,
    label: Option<Seq<char>>,
    answer_preview: Option<Seq<char>>,
)
    ensures
        listed_agent(envelope, pane_id) matches Some(agent) ==> body_for_pane(
            pane_id,
            envelope,
            label,
            answer_preview,
        ) == context_body(agent, label, answer_preview),
        listed_agent(envelope, pane_id) is None ==> body_for_pane(
            pane_id,
            envelope,
            label,
            answer_preview,
        ) is None,
        envelope.result is None ==> listed_agent(envelope, pane_id) is None && listed_focus(
            envelope,
        ) is None,
        envelope.result is Some ==> listed_focus(envelope) == first_focused_pane(
            envelope.result->0.agents@,
        ),
{
}

} // verus!
