//! A conversation: an ordered sequence of messages.
//!
//! Insertion order is the only ordering guarantee. The caller builds a
//! conversation and hands it to the reply loop, which is the only party
//! that appends to it afterwards. The pairing predicates here say what it
//! means for tool responses to be well-placed: every response answers an
//! earlier request, and no id is answered twice.

use vstd::prelude::*;

use crate::message::{Message, MessageContent};

verus! {

/// All content items of all messages, flattened in order.
pub open spec fn conv_items(msgs: Seq<Message>) -> Seq<MessageContent>
    decreases msgs.len(),
{
    if msgs.len() == 0 {
        Seq::empty()
    } else {
        msgs[0].content@ + conv_items(msgs.drop_first())
    }
}

/// Appending one message appends its items.
pub proof fn lemma_conv_items_push(msgs: Seq<Message>, m: Message)
    ensures
        conv_items(msgs.push(m)) == conv_items(msgs) + m.content@,
    decreases msgs.len(),
{
    if msgs.len() == 0 {
        assert(msgs.push(m).drop_first() =~= Seq::<Message>::empty());
        assert(msgs.push(m)[0] == m);
        assert(conv_items(Seq::<Message>::empty()) == Seq::<MessageContent>::empty());
        assert(conv_items(msgs.push(m)) =~= conv_items(msgs) + m.content@);
    } else {
        assert(msgs.push(m)[0] == msgs[0]);
        assert(msgs.push(m).drop_first() =~= msgs.drop_first().push(m));
        lemma_conv_items_push(msgs.drop_first(), m);
        assert(conv_items(msgs.push(m)) =~= conv_items(msgs) + m.content@);
    }
}

/// Splitting a conversation splits its items.
pub proof fn lemma_conv_items_add(a: Seq<Message>, b: Seq<Message>)
    ensures
        conv_items(a + b) == conv_items(a) + conv_items(b),
    decreases a.len(),
{
    if a.len() == 0 {
        assert(a + b =~= b);
        assert(conv_items(a) == Seq::<MessageContent>::empty());
        assert(conv_items(a + b) =~= conv_items(a) + conv_items(b));
    } else {
        assert((a + b)[0] == a[0]);
        assert((a + b).drop_first() =~= a.drop_first() + b);
        lemma_conv_items_add(a.drop_first(), b);
        assert(conv_items(a + b) =~= conv_items(a) + conv_items(b));
    }
}

/// Whether an item requests a tool invocation (by a provider, by the
/// frontend, or gated behind a confirmation).
pub open spec fn is_request_item(c: MessageContent) -> bool {
    c is ToolRequest || c is ToolConfirmationRequest || c is FrontendToolRequest
}

/// The id an item carries, if it is a request of any kind.
pub open spec fn request_item_id(c: MessageContent) -> Option<Seq<char>> {
    match c {
        MessageContent::ToolRequest(r) => Some(r.id@),
        MessageContent::ToolConfirmationRequest(r) => Some(r.id@),
        MessageContent::FrontendToolRequest(r) => Some(r.id@),
        _ => None,
    }
}

/// Whether some item before position `k` is a request with this id.
pub open spec fn request_before(items: Seq<MessageContent>, k: int, id: Seq<char>) -> bool {
    exists|j: int| 0 <= j < k && request_item_id(items[j]) == Some(id)
}

/// Whether any item is a request with this id.
pub open spec fn has_request(items: Seq<MessageContent>, id: Seq<char>) -> bool {
    exists|j: int| 0 <= j < items.len() && request_item_id(items[j]) == Some(id)
}

/// Whether any item is a tool response with this id.
pub open spec fn has_response(items: Seq<MessageContent>, id: Seq<char>) -> bool {
    exists|j: int|
        0 <= j < items.len() && items[j] is ToolResponse && items[j]->ToolResponse_0.id@ == id
}

/// Every tool response answers a request that appears earlier.
pub open spec fn responses_paired(items: Seq<MessageContent>) -> bool {
    forall|k: int| #![trigger items[k]]
        0 <= k < items.len() && items[k] is ToolResponse ==> request_before(
            items,
            k,
            items[k]->ToolResponse_0.id@,
        )
}

/// No two tool responses carry the same id.
pub open spec fn no_double_answer(items: Seq<MessageContent>) -> bool {
    forall|k1: int, k2: int|
        0 <= k1 < k2 < items.len() && items[k1] is ToolResponse && items[k2] is ToolResponse
            ==> items[k1]->ToolResponse_0.id@ != items[k2]->ToolResponse_0.id@
}

/// A conversation in which every response answers an earlier request and
/// no id is answered twice.
pub open spec fn conversation_paired(msgs: Seq<Message>) -> bool {
    responses_paired(conv_items(msgs)) && no_double_answer(conv_items(msgs))
}

/// Appending a message with no tool-response item keeps the conversation
/// paired.
pub proof fn lemma_push_no_response(msgs: Seq<Message>, m: Message)
    requires
        conversation_paired(msgs),
        forall|i: int| 0 <= i < m.content@.len() ==> !(#[trigger] m.content@[i] is ToolResponse),
    ensures
        conversation_paired(msgs.push(m)),
        forall|x: Seq<char>|
            has_response(conv_items(msgs.push(m)), x) == has_response(conv_items(msgs), x),
        forall|x: Seq<char>|
            has_request(conv_items(msgs), x) ==> has_request(conv_items(msgs.push(m)), x),
{
    lemma_conv_items_push(msgs, m);
    let before = conv_items(msgs);
    let items = conv_items(msgs.push(m));
    assert forall|x: Seq<char>|
        has_response(items, x) == has_response(before, x) by {
        if has_response(items, x) {
            let j0 = choose|j: int|
                0 <= j < items.len() && items[j] is ToolResponse && items[j]->ToolResponse_0.id@
                    == x;
            assert(items[j0] == before[j0]);
            assert(has_response(before, x));
        }
        if has_response(before, x) {
            let j0 = choose|j: int|
                0 <= j < before.len() && before[j] is ToolResponse
                    && before[j]->ToolResponse_0.id@ == x;
            assert(items[j0] == before[j0]);
            assert(has_response(items, x));
        }
    }
    assert forall|x: Seq<char>| has_request(before, x) implies has_request(items, x) by {
        let j0 = choose|j: int| 0 <= j < before.len() && request_item_id(before[j]) == Some(x);
        assert(items[j0] == before[j0]);
    }
    assert forall|k: int| #![trigger items[k]]
        0 <= k < items.len() && items[k] is ToolResponse implies request_before(
        items,
        k,
        items[k]->ToolResponse_0.id@,
    ) by {
        if k < before.len() {
            assert(items[k] == before[k]);
            let j0 = choose|j: int|
                0 <= j < k && request_item_id(before[j]) == Some(
                    before[k]->ToolResponse_0.id@,
                );
            assert(items[j0] == before[j0]);
            assert(request_item_id(items[j0]) == Some(items[k]->ToolResponse_0.id@));
        } else {
            assert(items[k] == m.content@[k - before.len()]);
        }
    }
    assert forall|k1: int, k2: int|
        0 <= k1 < k2 < items.len() && items[k1] is ToolResponse
            && items[k2] is ToolResponse implies items[k1]->ToolResponse_0.id@
        != items[k2]->ToolResponse_0.id@ by {
        if k2 < before.len() {
            assert(items[k1] == before[k1]);
            assert(items[k2] == before[k2]);
        } else {
            assert(items[k2] == m.content@[k2 - before.len()]);
        }
    }
}

/// Appending a message that holds exactly one tool response keeps the
/// conversation paired, provided the answered id was requested earlier and
/// not answered yet.
pub proof fn lemma_push_response(msgs: Seq<Message>, m: Message, id: Seq<char>)
    requires
        conversation_paired(msgs),
        m.content@.len() == 1,
        m.content@[0] is ToolResponse,
        m.content@[0]->ToolResponse_0.id@ == id,
        has_request(conv_items(msgs), id),
        !has_response(conv_items(msgs), id),
    ensures
        conversation_paired(msgs.push(m)),
        has_response(conv_items(msgs.push(m)), id),
        forall|x: Seq<char>|
            x != id ==> has_response(conv_items(msgs.push(m)), x) == has_response(
                conv_items(msgs),
                x,
            ),
        forall|x: Seq<char>|
            has_request(conv_items(msgs.push(m)), x) == has_request(conv_items(msgs), x),
{
    lemma_conv_items_push(msgs, m);
    let before = conv_items(msgs);
    let items = conv_items(msgs.push(m));
    assert(items[before.len() as int] == m.content@[0]);
    assert forall|x: Seq<char>|
        x != id implies has_response(items, x) == has_response(before, x) by {
        if has_response(items, x) {
            let j0 = choose|j: int|
                0 <= j < items.len() && items[j] is ToolResponse && items[j]->ToolResponse_0.id@
                    == x;
            assert(j0 < before.len());
            assert(items[j0] == before[j0]);
            assert(has_response(before, x));
        }
        if has_response(before, x) {
            let j0 = choose|j: int|
                0 <= j < before.len() && before[j] is ToolResponse
                    && before[j]->ToolResponse_0.id@ == x;
            assert(items[j0] == before[j0]);
            assert(has_response(items, x));
        }
    }
    assert forall|x: Seq<char>|
        has_request(items, x) == has_request(before, x) by {
        if has_request(items, x) {
            let j0 = choose|j: int| 0 <= j < items.len() && request_item_id(items[j]) == Some(x);
            assert(j0 < before.len());
            assert(items[j0] == before[j0]);
            assert(has_request(before, x));
        }
        if has_request(before, x) {
            let j0 = choose|j: int| 0 <= j < before.len() && request_item_id(before[j]) == Some(x);
            assert(items[j0] == before[j0]);
            assert(has_request(items, x));
        }
    }
    assert forall|k: int| #![trigger items[k]]
        0 <= k < items.len() && items[k] is ToolResponse implies request_before(
        items,
        k,
        items[k]->ToolResponse_0.id@,
    ) by {
        if k < before.len() {
            assert(items[k] == before[k]);
            let j0 = choose|j: int|
                0 <= j < k && request_item_id(before[j]) == Some(
                    before[k]->ToolResponse_0.id@,
                );
            assert(items[j0] == before[j0]);
            assert(request_item_id(items[j0]) == Some(items[k]->ToolResponse_0.id@));
        } else {
            let j0 = choose|j: int|
                0 <= j < before.len() && request_item_id(before[j]) == Some(id);
            assert(items[j0] == before[j0]);
            assert(request_item_id(items[j0]) == Some(id));
        }
    }
    assert forall|k1: int, k2: int|
        0 <= k1 < k2 < items.len() && items[k1] is ToolResponse
            && items[k2] is ToolResponse implies items[k1]->ToolResponse_0.id@
        != items[k2]->ToolResponse_0.id@ by {
        if k2 < before.len() {
            assert(items[k1] == before[k1]);
            assert(items[k2] == before[k2]);
        } else {
            assert(items[k1] == before[k1]);
            if items[k1]->ToolResponse_0.id@ == id {
                assert(has_response(before, id));
            }
        }
    }
    assert(has_response(items, id));
}

/// Keeping only a prefix of the messages keeps the conversation paired.
pub proof fn lemma_truncate_paired(msgs: Seq<Message>, n: int)
    requires
        conversation_paired(msgs),
        0 <= n <= msgs.len(),
    ensures
        conversation_paired(msgs.subrange(0, n)),
{
    let prefix = msgs.subrange(0, n);
    let suffix = msgs.subrange(n, msgs.len() as int);
    assert(msgs =~= prefix + suffix);
    lemma_conv_items_add(prefix, suffix);
    let before = conv_items(msgs);
    let items = conv_items(prefix);
    assert forall|k: int| #![trigger items[k]]
        0 <= k < items.len() && items[k] is ToolResponse implies request_before(
        items,
        k,
        items[k]->ToolResponse_0.id@,
    ) by {
        assert(items[k] == before[k]);
        let j0 = choose|j: int|
            0 <= j < k && request_item_id(before[j]) == Some(before[k]->ToolResponse_0.id@);
        assert(items[j0] == before[j0]);
        assert(request_item_id(items[j0]) == Some(items[k]->ToolResponse_0.id@));
    }
    assert forall|k1: int, k2: int|
        0 <= k1 < k2 < items.len() && items[k1] is ToolResponse
            && items[k2] is ToolResponse implies items[k1]->ToolResponse_0.id@
        != items[k2]->ToolResponse_0.id@ by {
        assert(items[k1] == before[k1]);
        assert(items[k2] == before[k2]);
    }
}

/// Whether some message holds a tool response with this id, stated over
/// the message structure rather than the flattened items.
pub open spec fn msgs_have_response(msgs: Seq<Message>, id: Seq<char>) -> bool {
    exists|i: int, j: int|
        0 <= i < msgs.len() && 0 <= j < msgs[i].content@.len() && msgs[i].content@[j]
            is ToolResponse && msgs[i].content@[j]->ToolResponse_0.id@ == id
}

/// The structural and the flattened statement of "some response carries
/// this id" agree.
pub proof fn lemma_has_response_flat(msgs: Seq<Message>, id: Seq<char>)
    ensures
        has_response(conv_items(msgs), id) == msgs_have_response(msgs, id),
    decreases msgs.len(),
{
    if msgs.len() == 0 {
    } else {
        lemma_has_response_flat(msgs.drop_first(), id);
        let items = conv_items(msgs);
        let head = msgs[0].content@;
        let rest = conv_items(msgs.drop_first());
        if has_response(items, id) {
            let k0 = choose|k: int|
                0 <= k < items.len() && items[k] is ToolResponse && items[k]->ToolResponse_0.id@
                    == id;
            if k0 < head.len() {
                assert(items[k0] == head[k0]);
                assert(msgs_have_response(msgs, id));
            } else {
                assert(items[k0] == rest[k0 - head.len()]);
                assert(has_response(rest, id));
                let (i0, j0) = choose|i: int, j: int|
                    0 <= i < msgs.drop_first().len() && 0 <= j < msgs.drop_first()[
                        i
                    ].content@.len() && msgs.drop_first()[i].content@[j] is ToolResponse
                        && msgs.drop_first()[i].content@[j]->ToolResponse_0.id@ == id;
                assert(msgs.drop_first()[i0] == msgs[i0 + 1]);
                assert(msgs_have_response(msgs, id));
            }
        }
        if msgs_have_response(msgs, id) {
            let (i0, j0) = choose|i: int, j: int|
                0 <= i < msgs.len() && 0 <= j < msgs[i].content@.len() && msgs[i].content@[j]
                    is ToolResponse && msgs[i].content@[j]->ToolResponse_0.id@ == id;
            if i0 == 0 {
                assert(items[j0] == head[j0]);
                assert(has_response(items, id));
            } else {
                assert(msgs.drop_first()[i0 - 1] == msgs[i0]);
                assert(msgs_have_response(msgs.drop_first(), id));
                let k0 = choose|k: int|
                    0 <= k < rest.len() && rest[k] is ToolResponse && rest[k]->ToolResponse_0.id@
                        == id;
                assert(items[head.len() + k0] == rest[k0]);
                assert(has_response(items, id));
            }
        }
    }
}

proof fn lemma_conv_items_no_responses(msgs: Seq<Message>)
    requires
        forall|i: int, j: int|
            0 <= i < msgs.len() && 0 <= j < msgs[i].content@.len() ==> !(
            #[trigger] msgs[i].content@[j] is ToolResponse),
    ensures
        forall|k: int|
            0 <= k < conv_items(msgs).len() ==> !(#[trigger] conv_items(msgs)[k] is ToolResponse),
    decreases msgs.len(),
{
    if msgs.len() == 0 {
    } else {
        assert forall|i: int, j: int|
            0 <= i < msgs.drop_first().len() && 0 <= j
                < msgs.drop_first()[i].content@.len() implies !(#[trigger] msgs.drop_first()[
            i
        ].content@[j] is ToolResponse) by {
            assert(msgs.drop_first()[i] == msgs[i + 1]);
        }
        lemma_conv_items_no_responses(msgs.drop_first());
        assert forall|k: int|
            0 <= k < conv_items(msgs).len() implies !(#[trigger] conv_items(msgs)[k]
            is ToolResponse) by {
            if k < msgs[0].content@.len() {
                assert(conv_items(msgs)[k] == msgs[0].content@[k]);
            } else {
                assert(conv_items(msgs)[k] == conv_items(msgs.drop_first())[k - msgs[0].content@.len()]);
            }
        }
    }
}

/// A conversation without any tool response is trivially paired.
pub proof fn lemma_no_responses_paired(msgs: Seq<Message>)
    requires
        forall|i: int, j: int|
            0 <= i < msgs.len() && 0 <= j < msgs[i].content@.len() ==> !(
            #[trigger] msgs[i].content@[j] is ToolResponse),
    ensures
        conversation_paired(msgs),
{
    lemma_conv_items_no_responses(msgs);
}

/// An ordered sequence of messages.
#[derive(Debug, PartialEq, Eq)]
pub struct Conversation {
    pub messages: Vec<Message>,
}

impl Conversation {
    /// A conversation holding exactly these messages.
    pub fn new(messages: Vec<Message>) -> (r: Conversation)
        ensures
            r.messages == messages,
    {
        Conversation { messages }
    }

    /// An empty conversation.
    pub fn empty() -> (r: Conversation)
        ensures
            r.messages@.len() == 0,
    {
        Conversation { messages: Vec::new() }
    }

    /// How many messages the conversation holds.
    pub fn len(&self) -> (r: usize)
        ensures
            r == self.messages@.len(),
    {
        self.messages.len()
    }

    /// Append one message at the end; nothing is renumbered or reordered.
    pub fn push(&mut self, m: Message)
        ensures
            final(self).messages@ == old(self).messages@.push(m),
    {
        self.messages.push(m);
    }

    /// Whether no message holds a tool response yet. A caller that is
    /// about to hand a freshly built history to the reply loop can use
    /// this as a sound (if conservative) pairing check: a conversation
    /// without responses is trivially paired.
    pub fn has_no_tool_responses(&self) -> (r: bool)
        ensures
            r ==> conversation_paired(self.messages@),
    {
        let n = self.messages.len();
        let mut i: usize = 0;
        while i < n
            invariant
                i <= n,
                n == self.messages@.len(),
                forall|i2: int, j2: int|
                    0 <= i2 < i && 0 <= j2 < self.messages@[i2].content@.len() ==> !(
                    #[trigger] self.messages@[i2].content@[j2] is ToolResponse),
            decreases n - i,
        {
            let msg = &self.messages[i];
            let m = msg.content.len();
            let mut j: usize = 0;
            while j < m
                invariant
                    j <= m,
                    i < n,
                    n == self.messages@.len(),
                    m == msg.content@.len(),
                    *msg == self.messages@[i as int],
                    forall|j2: int|
                        0 <= j2 < j ==> !(#[trigger] self.messages@[i as int].content@[j2]
                            is ToolResponse),
                decreases m - j,
            {
                match &msg.content[j] {
                    MessageContent::ToolResponse(_) => {
                        return false;
                    },
                    _ => {},
                }
                j = j + 1;
            }
            i = i + 1;
        }
        proof {
            lemma_no_responses_paired(self.messages@);
        }
        true
    }

    /// Whether some tool response in the conversation already answers
    /// this id. A caller can use this to check that the ids of a new
    /// model turn are fresh before feeding the turn to the reply loop.
    pub fn answers_id(&self, id: &String) -> (r: bool)
        ensures
            r == has_response(conv_items(self.messages@), id@),
    {
        let n = self.messages.len();
        let mut i: usize = 0;
        while i < n
            invariant
                i <= n,
                n == self.messages@.len(),
                forall|i2: int, j2: int|
                    0 <= i2 < i && 0 <= j2 < self.messages@[i2].content@.len() ==> !(
                    #[trigger] self.messages@[i2].content@[j2] is ToolResponse
                        && self.messages@[i2].content@[j2]->ToolResponse_0.id@ == id@),
            decreases n - i,
        {
            let msg = &self.messages[i];
            let m = msg.content.len();
            let mut j: usize = 0;
            while j < m
                invariant
                    j <= m,
                    i < n,
                    n == self.messages@.len(),
                    m == msg.content@.len(),
                    *msg == self.messages@[i as int],
                    forall|j2: int|
                        0 <= j2 < j ==> !(#[trigger] self.messages@[i as int].content@[j2]
                            is ToolResponse && self.messages@[i as int].content@[
                            j2
                        ]->ToolResponse_0.id@ == id@),
                decreases m - j,
            {
                match &msg.content[j] {
                    MessageContent::ToolResponse(res) => {
                        if res.id == *id {
                            proof {
                                assert(msgs_have_response(self.messages@, id@));
                                lemma_has_response_flat(self.messages@, id@);
                            }
                            return true;
                        }
                    },
                    _ => {},
                }
                j = j + 1;
            }
            i = i + 1;
        }
        proof {
            assert(!msgs_have_response(self.messages@, id@));
            lemma_has_response_flat(self.messages@, id@);
        }
        false
    }

    /// The message at a position.
    pub fn get(&self, i: usize) -> (r: &Message)
        requires
            i < self.messages@.len(),
        ensures
            *r == self.messages@[i as int],
    {
        &self.messages[i]
    }
}

} // verus!
