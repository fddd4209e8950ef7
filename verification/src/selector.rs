//! The tool selector: bounds which tools are advertised to the model each
//! turn.
//!
//! `All` passes every registered tool through unchanged. `Ranked` keeps at
//! most `k` tools, preferring those whose name occurs in the recent
//! conversation text — but a tool referenced by an unresolved tool request
//! already in the conversation is never dropped, or the loop could receive
//! a response it cannot route. The exact ranking heuristic is deliberately
//! left open; the contracts pin the `All` behavior, the never-drop law,
//! and the size bound.

use vstd::prelude::*;

use crate::conversation::{msgs_have_response, Conversation};
use crate::message::{Message, MessageContent};
use crate::registry::{RegisteredTool, RegisteredToolView};
use crate::strutil::{contains_sub, str_contains_sub};

verus! {

/// Which subset of the registered tools to advertise.
#[derive(Clone, Copy, Debug, PartialEq, Eq, Structural)]
pub enum SelectionStrategy {
    /// Advertise every registered tool.
    All,
    /// Advertise the `k` best-ranked tools, plus every tool referenced by
    /// an unresolved request.
    Ranked { k: usize },
}

/// Whether the conversation holds a decoded tool request for this tool
/// whose id has no response yet: the request is still unresolved.
pub open spec fn references_tool(msgs: Seq<Message>, tool_id: Seq<char>) -> bool {
    exists|i: int, j: int|
        0 <= i < msgs.len() && 0 <= j < msgs[i].content@.len() && msgs[i].content@[j]
            is ToolRequest && msgs[i].content@[j]->ToolRequest_0.tool_call is Ok
            && msgs[i].content@[j]->ToolRequest_0.tool_call->Ok_0.name@ == tool_id
            && !msgs_have_response(msgs, msgs[i].content@[j]->ToolRequest_0.id@)
}

/// How many of the tools are referenced by an unresolved request.
pub open spec fn count_referenced(tools: Seq<RegisteredTool>, msgs: Seq<Message>) -> nat
    decreases tools.len(),
{
    if tools.len() == 0 {
        0
    } else {
        (if references_tool(msgs, tools[0].id@) {
            1nat
        } else {
            0
        }) + count_referenced(tools.drop_first(), msgs)
    }
}

/// Whether the selection carries a tool under this namespaced id.
pub open spec fn selected_id(r: Seq<RegisteredTool>, id: Seq<char>) -> bool {
    exists|j: int| 0 <= j < r.len() && r[j].id@ == id
}

/// Whether a selected tool is one of the offered tools, by model.
pub open spec fn from_tools(tools: Seq<RegisteredTool>, t: RegisteredToolView) -> bool {
    exists|i: int| 0 <= i < tools.len() && tools[i].deep_view() == t
}

fn msgs_response_exists(conv: &Conversation, id: &String) -> (r: bool)
    ensures
        r == msgs_have_response(conv.messages@, id@),
{
    let n = conv.messages.len();
    let mut i: usize = 0;
    while i < n
        invariant
            i <= n,
            n == conv.messages@.len(),
            forall|i2: int, j2: int|
                0 <= i2 < i && 0 <= j2 < conv.messages@[i2].content@.len() ==> !(
                #[trigger] conv.messages@[i2].content@[j2] is ToolResponse
                    && conv.messages@[i2].content@[j2]->ToolResponse_0.id@ == id@),
        decreases n - i,
    {
        let msg = conv.get(i);
        let m = msg.content.len();
        let mut j: usize = 0;
        while j < m
            invariant
                j <= m,
                i < n,
                n == conv.messages@.len(),
                m == msg.content@.len(),
                *msg == conv.messages@[i as int],
                forall|j2: int|
                    0 <= j2 < j ==> !(#[trigger] conv.messages@[i as int].content@[j2]
                        is ToolResponse && conv.messages@[i as int].content@[j2]->ToolResponse_0.id@
                        == id@),
            decreases m - j,
        {
            match &msg.content[j] {
                MessageContent::ToolResponse(res) => {
                    if res.id == *id {
                        return true;
                    }
                },
                _ => {},
            }
            j = j + 1;
        }
        i = i + 1;
    }
    false
}

fn is_referenced(conv: &Conversation, tool_id: &String) -> (r: bool)
    ensures
        r == references_tool(conv.messages@, tool_id@),
{
    let n = conv.messages.len();
    let mut i: usize = 0;
    while i < n
        invariant
            i <= n,
            n == conv.messages@.len(),
            forall|i2: int, j2: int|
                0 <= i2 < i && 0 <= j2 < conv.messages@[i2].content@.len() ==> !(
                #[trigger] conv.messages@[i2].content@[j2] is ToolRequest
                    && conv.messages@[i2].content@[j2]->ToolRequest_0.tool_call is Ok
                    && conv.messages@[i2].content@[j2]->ToolRequest_0.tool_call->Ok_0.name@
                    == tool_id@ && !msgs_have_response(
                    conv.messages@,
                    conv.messages@[i2].content@[j2]->ToolRequest_0.id@,
                )),
        decreases n - i,
    {
        let msg = conv.get(i);
        let m = msg.content.len();
        let mut j: usize = 0;
        while j < m
            invariant
                j <= m,
                i < n,
                n == conv.messages@.len(),
                m == msg.content@.len(),
                *msg == conv.messages@[i as int],
                forall|j2: int|
                    0 <= j2 < j ==> !(#[trigger] conv.messages@[i as int].content@[j2]
                        is ToolRequest && conv.messages@[i as int].content@[j2]->ToolRequest_0.tool_call
                        is Ok && conv.messages@[i as int].content@[j2]->ToolRequest_0.tool_call->Ok_0.name@
                        == tool_id@ && !msgs_have_response(
                        conv.messages@,
                        conv.messages@[i as int].content@[j2]->ToolRequest_0.id@,
                    )),
            decreases m - j,
        {
            match &msg.content[j] {
                MessageContent::ToolRequest(req) => {
                    match &req.tool_call {
                        Ok(tc) => {
                            if tc.name == *tool_id {
                                if !msgs_response_exists(conv, &req.id) {
                                    return true;
                                }
                            }
                        },
                        Err(_) => {},
                    }
                },
                _ => {},
            }
            j = j + 1;
        }
        i = i + 1;
    }
    false
}

/// The text the ranking heuristic scores against: the concatenated text of
/// the conversation's last message.
pub open spec fn recent_text(msgs: Seq<Message>) -> Seq<char> {
    if msgs.len() == 0 {
        Seq::empty()
    } else {
        crate::message::join_lines(crate::message::text_parts(msgs.last().content@))
    }
}

/// Whether the ranking heuristic scores this tool above the cut: its short
/// name occurs in the recent conversation text.
pub open spec fn scores(msgs: Seq<Message>, t: RegisteredTool) -> bool {
    contains_sub(recent_text(msgs), t.tool.name@)
}

fn scores_exec(conv: &Conversation, t: &RegisteredTool) -> (r: bool)
    ensures
        r == scores(conv.messages@, *t),
{
    let n = conv.messages.len();
    if n == 0 {
        let empty = String::new();
        str_contains_sub(empty.as_str(), t.tool.name.as_str())
    } else {
        let last = conv.get(n - 1);
        let text = last.as_concat_text();
        str_contains_sub(text.as_str(), t.tool.name.as_str())
    }
}

/// The tool selector: the active strategy and, for `Ranked`, a cached
/// ranking index (the namespaced tool ids the index was built from).
pub struct ToolSelector {
    pub strategy: SelectionStrategy,
    pub index: Option<Vec<String>>,
}

impl ToolSelector {
    /// A selector with this strategy and no cached index.
    pub fn new(strategy: SelectionStrategy) -> (r: ToolSelector)
        ensures
            r.strategy == strategy,
            r.index is None,
    {
        ToolSelector { strategy, index: None }
    }

    /// Swap the strategy, atomically from a caller's point of view: a
    /// selection in flight sees either the old or the new selector value.
    /// With `rebuild_index` the cached index is rebuilt from the current
    /// tool set; otherwise it is left as it stands.
    pub fn update_strategy(
        &mut self,
        new_strategy: SelectionStrategy,
        rebuild_index: bool,
        current_tools: &Vec<RegisteredTool>,
    )
        ensures
            final(self).strategy == new_strategy,
            rebuild_index ==> match final(self).index {
                Some(ids) => ids@.len() == current_tools@.len() && forall|i: int|
                    0 <= i < ids@.len() ==> #[trigger] ids@[i]@ == current_tools@[i].id@,
                None => false,
            },
            !rebuild_index ==> final(self).index == old(self).index,
    {
        self.strategy = new_strategy;
        if rebuild_index {
            let n = current_tools.len();
            let mut ids: Vec<String> = Vec::new();
            let mut i: usize = 0;
            while i < n
                invariant
                    i <= n,
                    n == current_tools@.len(),
                    ids@.len() == i,
                    forall|j: int| 0 <= j < i ==> #[trigger] ids@[j]@ == current_tools@[j].id@,
                decreases n - i,
            {
                ids.push(current_tools[i].id.clone());
                i = i + 1;
            }
            self.index = Some(ids);
        }
    }

    /// Choose the subset of tools to advertise this turn.
    ///
    /// `All` passes the tool list through unchanged. `Ranked { k }` keeps
    /// every tool referenced by an unresolved request (never dropped, even
    /// beyond the cut) and at most `k` others, preferring tools whose name
    /// occurs in the recent conversation text.
    pub fn select(&self, tools: &Vec<RegisteredTool>, conversation: &Conversation) -> (r: Vec<
        RegisteredTool,
    >)
        ensures
            match self.strategy {
                SelectionStrategy::All => r.deep_view() == tools.deep_view(),
                SelectionStrategy::Ranked { k } => {
                    &&& forall|i: int|
                        #![trigger tools@[i]]
                        0 <= i < tools@.len() && references_tool(
                            conversation.messages@,
                            tools@[i].id@,
                        ) ==> selected_id(r@, tools@[i].id@)
                    &&& forall|j: int|
                        #![trigger r@[j]]
                        0 <= j < r@.len() ==> from_tools(tools@, r@[j].deep_view())
                    &&& r@.len() <= count_referenced(tools@, conversation.messages@) + k
                },
            },
    {
        match self.strategy {
            SelectionStrategy::All => {
                let n = tools.len();
                let mut out: Vec<RegisteredTool> = Vec::new();
                let mut i: usize = 0;
                while i < n
                    invariant
                        i <= n,
                        n == tools@.len(),
                        out@.len() == i,
                        forall|j: int|
                            0 <= j < i ==> #[trigger] out@[j].deep_view()
                                == tools@[j].deep_view(),
                    decreases n - i,
                {
                    out.push(clone_registered(&tools[i]));
                    i = i + 1;
                }
                proof {
                    assert(out.deep_view() =~= tools.deep_view());
                }
                out
            },
            SelectionStrategy::Ranked { k } => {
                let n = tools.len();
                let mut out: Vec<RegisteredTool> = Vec::new();

                // Pass one: everything referenced by an unresolved request.
                let mut i: usize = 0;
                proof {
                    assert(tools@.skip(0) =~= tools@);
                }
                while i < n
                    invariant
                        i <= n,
                        n == tools@.len(),
                        forall|i2: int|
                            #![trigger tools@[i2]]
                            0 <= i2 < i && references_tool(
                                conversation.messages@,
                                tools@[i2].id@,
                            ) ==> selected_id(out@, tools@[i2].id@),
                        forall|j: int|
                            #![trigger out@[j]]
                            0 <= j < out@.len() ==> from_tools(tools@, out@[j].deep_view()),
                        out@.len() + count_referenced(tools@.skip(i as int), conversation.messages@)
                            == count_referenced(tools@, conversation.messages@),
                    decreases n - i,
                {
                    proof {
                        assert(tools@.skip(i as int)[0] == tools@[i as int]);
                        assert(tools@.skip(i as int).drop_first() =~= tools@.skip(i as int + 1));
                    }
                    let ghost prev = out@;
                    if is_referenced(conversation, &tools[i].id) {
                        out.push(clone_registered(&tools[i]));
                        proof {
                            assert(out@[out@.len() - 1].id@ == tools@[i as int].id@);
                            assert(out@[out@.len() - 1].deep_view() == tools@[
                                i as int
                            ].deep_view());
                            assert forall|i2: int|
                                #![trigger tools@[i2]]
                                0 <= i2 < i + 1 && references_tool(
                                    conversation.messages@,
                                    tools@[i2].id@,
                                ) implies selected_id(out@, tools@[i2].id@) by {
                                if i2 < i {
                                    let j0 = choose|j: int|
                                        0 <= j < prev.len() && prev[j].id@ == tools@[i2].id@;
                                    assert(out@[j0].id@ == tools@[i2].id@);
                                } else {
                                    assert(out@[out@.len() - 1].id@ == tools@[i2].id@);
                                }
                            }
                        }
                    }
                    i = i + 1;
                }
                proof {
                    assert(tools@.skip(n as int) =~= Seq::<RegisteredTool>::empty());
                }

                // Pass two: scored tools fill the remaining budget.
                let mut taken: usize = 0;
                let mut i: usize = 0;
                while i < n
                    invariant
                        i <= n,
                        n == tools@.len(),
                        taken <= k,
                        forall|i2: int|
                            #![trigger tools@[i2]]
                            0 <= i2 < tools@.len() && references_tool(
                                conversation.messages@,
                                tools@[i2].id@,
                            ) ==> selected_id(out@, tools@[i2].id@),
                        forall|j: int|
                            #![trigger out@[j]]
                            0 <= j < out@.len() ==> from_tools(tools@, out@[j].deep_view()),
                        out@.len() <= count_referenced(tools@, conversation.messages@) + taken,
                    decreases n - i,
                {
                    if taken < k {
                        let referenced = is_referenced(conversation, &tools[i].id);
                        if !referenced && scores_exec(conversation, &tools[i]) {
                            let ghost prev = out@;
                            out.push(clone_registered(&tools[i]));
                            taken = taken + 1;
                            proof {
                                assert(out@[out@.len() - 1].deep_view() == tools@[
                                    i as int
                                ].deep_view());
                                assert forall|i2: int|
                                    #![trigger tools@[i2]]
                                    0 <= i2 < tools@.len() && references_tool(
                                        conversation.messages@,
                                        tools@[i2].id@,
                                    ) implies selected_id(out@, tools@[i2].id@) by {
                                    let j0 = choose|j: int|
                                        0 <= j < prev.len() && prev[j].id@ == tools@[i2].id@;
                                    assert(out@[j0].id@ == tools@[i2].id@);
                                }
                            }
                        }
                    }
                    i = i + 1;
                }
                out
            },
        }
    }
}

fn clone_registered(t: &RegisteredTool) -> (r: RegisteredTool)
    ensures
        r.deep_view() == t.deep_view(),
        r.id == t.id,
{
    RegisteredTool { id: t.id.clone(), extension: t.extension.clone(), tool: t.tool.clone() }
}

} // verus!
