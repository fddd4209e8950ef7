//! The conversation message model: one turn of a conversation and its
//! ordered content items.
//!
//! `MessageContent` is a closed, tagged variant set; matching on it is
//! exhaustive, so adding a content kind is a compile-time, all-call-sites
//! change. Tool requests and responses are paired by an opaque string id;
//! the reply loop maintains the pairing invariant (see `agent`).

use vstd::prelude::*;
use vstd::string::StringExecFns;

use crate::args::ToolArguments;
use crate::clock::now_timestamp;
use crate::sanitize::{sanitize_text, sanitize_unicode_tags};
use crate::strutil::{dedup_strings, seq_contains_str};

verus! {

/// Error code used by a tool provider for an internal failure.
pub const INTERNAL_ERROR: i64 = -32603;

/// Error code used by a tool provider for malformed call arguments.
pub const INVALID_PARAMS: i64 = -32602;

/// Error code used by a tool provider for an unknown method or tool.
pub const METHOD_NOT_FOUND: i64 = -32601;

/// Error code used by a tool provider for a missing resource.
pub const RESOURCE_NOT_FOUND: i64 = -32002;

/// Who produced a message.
#[derive(Clone, Copy, Debug, PartialEq, Eq)]
pub enum Role {
    User,
    Assistant,
}

/// A structured error reported by a tool provider or synthesized by the
/// reply loop in place of an execution.
#[derive(Clone, Debug, PartialEq, Eq)]
pub struct ErrorData {
    pub code: i64,
    pub message: String,
}

/// The result of handing work to a tool provider.
pub type ToolResult<T> = Result<T, ErrorData>;

/// One named tool invocation with its arguments.
#[derive(Clone, Debug, PartialEq, Eq)]
pub struct ToolCall {
    pub name: String,
    pub arguments: ToolArguments,
}

/// Plain text content.
#[derive(Clone, Debug, PartialEq, Eq)]
pub struct TextContent {
    pub text: String,
}

/// Base64 image data with its mime type.
#[derive(Clone, Debug, PartialEq, Eq)]
pub struct ImageContent {
    pub data: String,
    pub mime_type: String,
}

/// The contents of a resource a tool provider can expose.
#[derive(Debug, PartialEq, Eq)]
pub enum ResourceContents {
    TextResourceContents { uri: String, mime_type: Option<String>, text: String },
    BlobResourceContents { uri: String, mime_type: Option<String>, blob: String },
}

/// One item of content returned by a tool provider.
#[derive(Debug, PartialEq, Eq)]
pub enum Content {
    Text(TextContent),
    Image(ImageContent),
    Resource(ResourceContents),
    Audio,
}

/// A model-issued request to invoke a tool, or the error that made the
/// request undecodable.
#[derive(Debug, PartialEq, Eq)]
pub struct ToolRequest {
    pub id: String,
    pub tool_call: ToolResult<ToolCall>,
}

/// The answer to a tool request with the same id.
#[derive(Debug, PartialEq, Eq)]
pub struct ToolResponse {
    pub id: String,
    pub tool_result: ToolResult<Vec<Content>>,
}

/// A user-in-the-loop gate: the named tool may only run once this request
/// is approved.
#[derive(Clone, Debug, PartialEq, Eq)]
pub struct ToolConfirmationRequest {
    pub id: String,
    pub tool_name: String,
    pub arguments: ToolArguments,
    pub prompt: Option<String>,
}

/// Model reasoning text with its integrity signature.
#[derive(Clone, Debug, PartialEq, Eq)]
pub struct ThinkingContent {
    pub thinking: String,
    pub signature: String,
}

/// Model reasoning withheld by the provider, carried opaquely.
#[derive(Clone, Debug, PartialEq, Eq)]
pub struct RedactedThinkingContent {
    pub data: String,
}

/// A tool request addressed to the frontend rather than a tool provider.
#[derive(Debug, PartialEq, Eq)]
pub struct FrontendToolRequest {
    pub id: String,
    pub tool_call: ToolResult<ToolCall>,
}

/// The model provider refused the conversation for length.
#[derive(Clone, Debug, PartialEq, Eq)]
pub struct ContextLengthExceeded {
    pub msg: String,
}

/// The caller is asked to summarize before the conversation can go on.
#[derive(Clone, Debug, PartialEq, Eq)]
pub struct SummarizationRequested {
    pub msg: String,
}

/// Content passed inside a message: simple content or tool content.
#[derive(Debug, PartialEq, Eq)]
pub enum MessageContent {
    Text(TextContent),
    Image(ImageContent),
    ToolRequest(ToolRequest),
    ToolResponse(ToolResponse),
    ToolConfirmationRequest(ToolConfirmationRequest),
    FrontendToolRequest(FrontendToolRequest),
    Thinking(ThinkingContent),
    RedactedThinking(RedactedThinkingContent),
    ContextLengthExceeded(ContextLengthExceeded),
    SummarizationRequested(SummarizationRequested),
}

/// A message to or from the model.
#[derive(Debug, PartialEq, Eq)]
pub struct Message {
    pub id: Option<String>,
    pub role: Role,
    pub created: i64,
    pub content: Vec<MessageContent>,
}

/// Mathematical model of an `ErrorData`.
pub ghost struct ErrorDataView {
    pub code: int,
    pub message: Seq<char>,
}

/// Mathematical model of a `ToolCall`.
pub ghost struct ToolCallView {
    pub name: Seq<char>,
    pub arguments: Seq<(Seq<char>, Seq<char>)>,
}

/// Mathematical model of a `ResourceContents`.
pub ghost enum ResourceContentsView {
    Text { uri: Seq<char>, mime_type: Option<Seq<char>>, text: Seq<char> },
    Blob { uri: Seq<char>, mime_type: Option<Seq<char>>, blob: Seq<char> },
}

/// Mathematical model of a `Content`.
pub ghost enum ContentView {
    Text(Seq<char>),
    Image { data: Seq<char>, mime_type: Seq<char> },
    Resource(ResourceContentsView),
    Audio,
}

/// Mathematical model of a `ToolRequest` (and of a `FrontendToolRequest`).
pub ghost struct ToolRequestView {
    pub id: Seq<char>,
    pub tool_call: Result<ToolCallView, ErrorDataView>,
}

/// Mathematical model of a `ToolResponse`.
pub ghost struct ToolResponseView {
    pub id: Seq<char>,
    pub tool_result: Result<Seq<ContentView>, ErrorDataView>,
}

/// Mathematical model of a `ToolConfirmationRequest`.
pub ghost struct ToolConfirmationRequestView {
    pub id: Seq<char>,
    pub tool_name: Seq<char>,
    pub arguments: Seq<(Seq<char>, Seq<char>)>,
    pub prompt: Option<Seq<char>>,
}

/// Mathematical model of a `MessageContent`.
pub ghost enum MessageContentView {
    Text(Seq<char>),
    Image { data: Seq<char>, mime_type: Seq<char> },
    ToolRequest(ToolRequestView),
    ToolResponse(ToolResponseView),
    ToolConfirmationRequest(ToolConfirmationRequestView),
    FrontendToolRequest(ToolRequestView),
    Thinking { thinking: Seq<char>, signature: Seq<char> },
    RedactedThinking(Seq<char>),
    ContextLengthExceeded(Seq<char>),
    SummarizationRequested(Seq<char>),
}

/// Mathematical model of a `Message`.
pub ghost struct MessageView {
    pub id: Option<Seq<char>>,
    pub role: Role,
    pub created: int,
    pub content: Seq<MessageContentView>,
}

impl DeepView for ErrorData {
    type V = ErrorDataView;

    open spec fn deep_view(&self) -> ErrorDataView {
        ErrorDataView { code: self.code as int, message: self.message@ }
    }
}

impl DeepView for ToolCall {
    type V = ToolCallView;

    open spec fn deep_view(&self) -> ToolCallView {
        ToolCallView { name: self.name@, arguments: self.arguments.deep_view() }
    }
}

impl DeepView for ResourceContents {
    type V = ResourceContentsView;

    open spec fn deep_view(&self) -> ResourceContentsView {
        match self {
            ResourceContents::TextResourceContents { uri, mime_type, text } => {
                ResourceContentsView::Text {
                    uri: uri@,
                    mime_type: mime_type.deep_view(),
                    text: text@,
                }
            },
            ResourceContents::BlobResourceContents { uri, mime_type, blob } => {
                ResourceContentsView::Blob {
                    uri: uri@,
                    mime_type: mime_type.deep_view(),
                    blob: blob@,
                }
            },
        }
    }
}

impl DeepView for Content {
    type V = ContentView;

    open spec fn deep_view(&self) -> ContentView {
        match self {
            Content::Text(t) => ContentView::Text(t.text@),
            Content::Image(i) => ContentView::Image { data: i.data@, mime_type: i.mime_type@ },
            Content::Resource(r) => ContentView::Resource(r.deep_view()),
            Content::Audio => ContentView::Audio,
        }
    }
}

/// The model of a decoded-or-failed tool call.
pub open spec fn view_tool_call_result(r: ToolResult<ToolCall>) -> Result<
    ToolCallView,
    ErrorDataView,
> {
    match r {
        Ok(tc) => Ok(tc.deep_view()),
        Err(e) => Err(e.deep_view()),
    }
}

/// The model of a tool result carrying content items.
pub open spec fn view_contents_result(r: ToolResult<Vec<Content>>) -> Result<
    Seq<ContentView>,
    ErrorDataView,
> {
    match r {
        Ok(v) => Ok(v.deep_view()),
        Err(e) => Err(e.deep_view()),
    }
}

impl DeepView for ToolRequest {
    type V = ToolRequestView;

    open spec fn deep_view(&self) -> ToolRequestView {
        ToolRequestView { id: self.id@, tool_call: view_tool_call_result(self.tool_call) }
    }
}

impl DeepView for ToolResponse {
    type V = ToolResponseView;

    open spec fn deep_view(&self) -> ToolResponseView {
        ToolResponseView { id: self.id@, tool_result: view_contents_result(self.tool_result) }
    }
}

impl DeepView for ToolConfirmationRequest {
    type V = ToolConfirmationRequestView;

    open spec fn deep_view(&self) -> ToolConfirmationRequestView {
        ToolConfirmationRequestView {
            id: self.id@,
            tool_name: self.tool_name@,
            arguments: self.arguments.deep_view(),
            prompt: self.prompt.deep_view(),
        }
    }
}

impl DeepView for FrontendToolRequest {
    type V = ToolRequestView;

    open spec fn deep_view(&self) -> ToolRequestView {
        ToolRequestView { id: self.id@, tool_call: view_tool_call_result(self.tool_call) }
    }
}

impl DeepView for MessageContent {
    type V = MessageContentView;

    open spec fn deep_view(&self) -> MessageContentView {
        match self {
            MessageContent::Text(t) => MessageContentView::Text(t.text@),
            MessageContent::Image(i) => MessageContentView::Image {
                data: i.data@,
                mime_type: i.mime_type@,
            },
            MessageContent::ToolRequest(r) => MessageContentView::ToolRequest(r.deep_view()),
            MessageContent::ToolResponse(r) => MessageContentView::ToolResponse(r.deep_view()),
            MessageContent::ToolConfirmationRequest(r) => {
                MessageContentView::ToolConfirmationRequest(r.deep_view())
            },
            MessageContent::FrontendToolRequest(r) => {
                MessageContentView::FrontendToolRequest(r.deep_view())
            },
            MessageContent::Thinking(t) => MessageContentView::Thinking {
                thinking: t.thinking@,
                signature: t.signature@,
            },
            MessageContent::RedactedThinking(t) => MessageContentView::RedactedThinking(t.data@),
            MessageContent::ContextLengthExceeded(c) => {
                MessageContentView::ContextLengthExceeded(c.msg@)
            },
            MessageContent::SummarizationRequested(s) => {
                MessageContentView::SummarizationRequested(s.msg@)
            },
        }
    }
}

impl DeepView for Message {
    type V = MessageView;

    open spec fn deep_view(&self) -> MessageView {
        MessageView {
            id: self.id.deep_view(),
            role: self.role,
            created: self.created as int,
            content: self.content.deep_view(),
        }
    }
}

/// The timestamp given to messages that were stored without one.
pub fn default_created() -> (r: i64)
    ensures
        r == 0,
{
    0
}

impl MessageContent {
    /// Text content.
    pub fn text(text: String) -> (r: MessageContent)
        ensures
            r == MessageContent::Text(TextContent { text }),
    {
        MessageContent::Text(TextContent { text })
    }

    /// Image content.
    pub fn image(data: String, mime_type: String) -> (r: MessageContent)
        ensures
            r == MessageContent::Image(ImageContent { data, mime_type }),
    {
        MessageContent::Image(ImageContent { data, mime_type })
    }

    /// A tool request item.
    pub fn tool_request(id: String, tool_call: ToolResult<ToolCall>) -> (r: MessageContent)
        ensures
            r == MessageContent::ToolRequest(ToolRequest { id, tool_call }),
    {
        MessageContent::ToolRequest(ToolRequest { id, tool_call })
    }

    /// A tool response item.
    pub fn tool_response(id: String, tool_result: ToolResult<Vec<Content>>) -> (r: MessageContent)
        ensures
            r == MessageContent::ToolResponse(ToolResponse { id, tool_result }),
    {
        MessageContent::ToolResponse(ToolResponse { id, tool_result })
    }

    /// A confirmation gate for one tool call.
    pub fn tool_confirmation_request(
        id: String,
        tool_name: String,
        arguments: ToolArguments,
        prompt: Option<String>,
    ) -> (r: MessageContent)
        ensures
            r == MessageContent::ToolConfirmationRequest(
                ToolConfirmationRequest { id, tool_name, arguments, prompt },
            ),
    {
        MessageContent::ToolConfirmationRequest(
            ToolConfirmationRequest { id, tool_name, arguments, prompt },
        )
    }

    /// Thinking content.
    pub fn thinking(thinking: String, signature: String) -> (r: MessageContent)
        ensures
            r == MessageContent::Thinking(ThinkingContent { thinking, signature }),
    {
        MessageContent::Thinking(ThinkingContent { thinking, signature })
    }

    /// Redacted thinking content.
    pub fn redacted_thinking(data: String) -> (r: MessageContent)
        ensures
            r == MessageContent::RedactedThinking(RedactedThinkingContent { data }),
    {
        MessageContent::RedactedThinking(RedactedThinkingContent { data })
    }

    /// A tool request addressed to the frontend.
    pub fn frontend_tool_request(id: String, tool_call: ToolResult<ToolCall>) -> (r:
        MessageContent)
        ensures
            r == MessageContent::FrontendToolRequest(FrontendToolRequest { id, tool_call }),
    {
        MessageContent::FrontendToolRequest(FrontendToolRequest { id, tool_call })
    }

    /// A context-length failure item.
    pub fn context_length_exceeded(msg: String) -> (r: MessageContent)
        ensures
            r == MessageContent::ContextLengthExceeded(ContextLengthExceeded { msg }),
    {
        MessageContent::ContextLengthExceeded(ContextLengthExceeded { msg })
    }

    /// A summarization request item.
    pub fn summarization_requested(msg: String) -> (r: MessageContent)
        ensures
            r == MessageContent::SummarizationRequested(SummarizationRequested { msg }),
    {
        MessageContent::SummarizationRequested(SummarizationRequested { msg })
    }

    /// The summarization request, if this is one.
    pub fn as_summarization_requested(&self) -> (r: Option<&SummarizationRequested>)
        ensures
            match self {
                MessageContent::SummarizationRequested(s) => r == Some(s),
                _ => r is None,
            },
    {
        match self {
            MessageContent::SummarizationRequested(s) => Some(s),
            _ => None,
        }
    }

    /// The tool request, if this is one.
    pub fn as_tool_request(&self) -> (r: Option<&ToolRequest>)
        ensures
            match self {
                MessageContent::ToolRequest(req) => r == Some(req),
                _ => r is None,
            },
    {
        match self {
            MessageContent::ToolRequest(req) => Some(req),
            _ => None,
        }
    }

    /// The tool response, if this is one.
    pub fn as_tool_response(&self) -> (r: Option<&ToolResponse>)
        ensures
            match self {
                MessageContent::ToolResponse(res) => r == Some(res),
                _ => r is None,
            },
    {
        match self {
            MessageContent::ToolResponse(res) => Some(res),
            _ => None,
        }
    }

    /// The confirmation request, if this is one.
    pub fn as_tool_confirmation_request(&self) -> (r: Option<&ToolConfirmationRequest>)
        ensures
            match self {
                MessageContent::ToolConfirmationRequest(req) => r == Some(req),
                _ => r is None,
            },
    {
        match self {
            MessageContent::ToolConfirmationRequest(req) => Some(req),
            _ => None,
        }
    }

    /// The text, if this is text content.
    pub fn as_text(&self) -> (r: Option<&String>)
        ensures
            match self {
                MessageContent::Text(t) => r == Some(&t.text),
                _ => r is None,
            },
    {
        match self {
            MessageContent::Text(t) => Some(&t.text),
            _ => None,
        }
    }

    /// The thinking content, if this is one.
    pub fn as_thinking(&self) -> (r: Option<&ThinkingContent>)
        ensures
            match self {
                MessageContent::Thinking(t) => r == Some(t),
                _ => r is None,
            },
    {
        match self {
            MessageContent::Thinking(t) => Some(t),
            _ => None,
        }
    }

    /// The redacted thinking content, if this is one.
    pub fn as_redacted_thinking(&self) -> (r: Option<&RedactedThinkingContent>)
        ensures
            match self {
                MessageContent::RedactedThinking(t) => r == Some(t),
                _ => r is None,
            },
    {
        match self {
            MessageContent::RedactedThinking(t) => Some(t),
            _ => None,
        }
    }
}

impl Message {
    /// A message with the given role, timestamp and content, and no id.
    pub fn new(role: Role, created: i64, content: Vec<MessageContent>) -> (m: Message)
        ensures
            m == (Message { id: None, role, created, content }),
    {
        Message { id: None, role, created, content }
    }

    /// A new, empty user message stamped with the current time.
    pub fn user() -> (m: Message)
        ensures
            m.id is None,
            m.role == Role::User,
            m.content@ == Seq::<MessageContent>::empty(),
    {
        Message { id: None, role: Role::User, created: now_timestamp(), content: Vec::new() }
    }

    /// A new, empty assistant message stamped with the current time.
    pub fn assistant() -> (m: Message)
        ensures
            m.id is None,
            m.role == Role::Assistant,
            m.content@ == Seq::<MessageContent>::empty(),
    {
        Message { id: None, role: Role::Assistant, created: now_timestamp(), content: Vec::new() }
    }

    /// The same message under the given id.
    pub fn with_id(self, id: String) -> (m: Message)
        ensures
            m == (Message { id: Some(id), ..self }),
    {
        Message { id: Some(id), ..self }
    }

    /// The message with one more content item at the end.
    pub fn with_content(self, content: MessageContent) -> (m: Message)
        ensures
            m.id == self.id,
            m.role == self.role,
            m.created == self.created,
            m.content@ == self.content@.push(content),
    {
        let mut c = self.content;
        c.push(content);
        Message { id: self.id, role: self.role, created: self.created, content: c }
    }

    /// The message with the given text appended as one text item. The text
    /// is sanitized here, at the point where it enters the data model.
    pub fn with_text(self, text: &str) -> (m: Message)
        ensures
            m.id == self.id,
            m.role == self.role,
            m.created == self.created,
            m.content@.len() == self.content@.len() + 1,
            m.content@.last() == MessageContent::Text(TextContent { text: m.content@.last()->Text_0.text }),
            m.content@.last()->Text_0.text@ == sanitize_text(text@),
            m.content@.subrange(0, self.content@.len() as int) == self.content@,
    {
        let sanitized = sanitize_unicode_tags(text);
        let m = self.with_content(MessageContent::Text(TextContent { text: sanitized }));
        proof {
            assert(m.content@.subrange(0, m.content@.len() - 1) =~= m.content@.drop_last());
        }
        m
    }

    /// The message with one image item appended.
    pub fn with_image(self, data: String, mime_type: String) -> (m: Message)
        ensures
            m.id == self.id,
            m.role == self.role,
            m.created == self.created,
            m.content@ == self.content@.push(
                MessageContent::Image(ImageContent { data, mime_type }),
            ),
    {
        self.with_content(MessageContent::image(data, mime_type))
    }

    /// The message with one tool request appended.
    pub fn with_tool_request(self, id: String, tool_call: ToolResult<ToolCall>) -> (m: Message)
        ensures
            m.id == self.id,
            m.role == self.role,
            m.created == self.created,
            m.content@ == self.content@.push(
                MessageContent::ToolRequest(ToolRequest { id, tool_call }),
            ),
    {
        self.with_content(MessageContent::tool_request(id, tool_call))
    }

    /// The message with one tool response appended.
    pub fn with_tool_response(self, id: String, result: ToolResult<Vec<Content>>) -> (m: Message)
        ensures
            m.id == self.id,
            m.role == self.role,
            m.created == self.created,
            m.content@ == self.content@.push(
                MessageContent::ToolResponse(ToolResponse { id, tool_result: result }),
            ),
    {
        self.with_content(MessageContent::tool_response(id, result))
    }

    /// The message with one confirmation request appended.
    pub fn with_tool_confirmation_request(
        self,
        id: String,
        tool_name: String,
        arguments: ToolArguments,
        prompt: Option<String>,
    ) -> (m: Message)
        ensures
            m.id == self.id,
            m.role == self.role,
            m.created == self.created,
            m.content@ == self.content@.push(
                MessageContent::ToolConfirmationRequest(
                    ToolConfirmationRequest { id, tool_name, arguments, prompt },
                ),
            ),
    {
        self.with_content(MessageContent::tool_confirmation_request(id, tool_name, arguments, prompt))
    }

    /// The message with one frontend tool request appended.
    pub fn with_frontend_tool_request(self, id: String, tool_call: ToolResult<ToolCall>) -> (m:
        Message)
        ensures
            m.id == self.id,
            m.role == self.role,
            m.created == self.created,
            m.content@ == self.content@.push(
                MessageContent::FrontendToolRequest(FrontendToolRequest { id, tool_call }),
            ),
    {
        self.with_content(MessageContent::frontend_tool_request(id, tool_call))
    }

    /// The message with one thinking item appended.
    pub fn with_thinking(self, thinking: String, signature: String) -> (m: Message)
        ensures
            m.id == self.id,
            m.role == self.role,
            m.created == self.created,
            m.content@ == self.content@.push(
                MessageContent::Thinking(ThinkingContent { thinking, signature }),
            ),
    {
        self.with_content(MessageContent::thinking(thinking, signature))
    }

    /// The message with one redacted-thinking item appended.
    pub fn with_redacted_thinking(self, data: String) -> (m: Message)
        ensures
            m.id == self.id,
            m.role == self.role,
            m.created == self.created,
            m.content@ == self.content@.push(
                MessageContent::RedactedThinking(RedactedThinkingContent { data }),
            ),
    {
        self.with_content(MessageContent::redacted_thinking(data))
    }

    /// The message with one context-length item appended.
    pub fn with_context_length_exceeded(self, msg: String) -> (m: Message)
        ensures
            m.id == self.id,
            m.role == self.role,
            m.created == self.created,
            m.content@ == self.content@.push(
                MessageContent::ContextLengthExceeded(ContextLengthExceeded { msg }),
            ),
    {
        self.with_content(MessageContent::context_length_exceeded(msg))
    }

    /// The message with one summarization-request item appended.
    pub fn with_summarization_requested(self, msg: String) -> (m: Message)
        ensures
            m.id == self.id,
            m.role == self.role,
            m.created == self.created,
            m.content@ == self.content@.push(
                MessageContent::SummarizationRequested(SummarizationRequested { msg }),
            ),
    {
        self.with_content(MessageContent::summarization_requested(msg))
    }
}

/// The texts of the text items among `content`, in order.
pub open spec fn text_parts(content: Seq<MessageContent>) -> Seq<Seq<char>>
    decreases content.len(),
{
    if content.len() == 0 {
        Seq::empty()
    } else {
        let rest = text_parts(content.drop_first());
        match content[0] {
            MessageContent::Text(t) => seq![t.text@] + rest,
            _ => rest,
        }
    }
}

/// The parts joined by single newlines.
pub open spec fn join_lines(parts: Seq<Seq<char>>) -> Seq<char>
    decreases parts.len(),
{
    if parts.len() == 0 {
        Seq::empty()
    } else if parts.len() == 1 {
        parts[0]
    } else {
        parts[0] + seq!['\n'] + join_lines(parts.drop_first())
    }
}

proof fn lemma_text_parts_push(content: Seq<MessageContent>, item: MessageContent)
    ensures
        text_parts(content.push(item)) == match item {
            MessageContent::Text(t) => text_parts(content).push(t.text@),
            _ => text_parts(content),
        },
    decreases content.len(),
{
    if content.len() == 0 {
        assert(content.push(item).drop_first() =~= Seq::<MessageContent>::empty());
        assert(content.push(item)[0] == item);
        assert(text_parts(Seq::<MessageContent>::empty()) == Seq::<Seq<char>>::empty());
        match item {
            MessageContent::Text(t) => {
                assert(text_parts(content.push(item)) =~= text_parts(content).push(t.text@));
            },
            _ => {
                assert(text_parts(content.push(item)) =~= text_parts(content));
            },
        }
    } else {
        assert(content.push(item)[0] == content[0]);
        assert(content.push(item).drop_first() =~= content.drop_first().push(item));
        lemma_text_parts_push(content.drop_first(), item);
        match item {
            MessageContent::Text(t) => {
                assert(text_parts(content.push(item)) =~= text_parts(content).push(t.text@));
            },
            _ => {
                assert(text_parts(content.push(item)) =~= text_parts(content));
            },
        }
    }
}

proof fn lemma_join_lines_push(parts: Seq<Seq<char>>, p: Seq<char>)
    ensures
        join_lines(parts.push(p)) == if parts.len() == 0 {
            p
        } else {
            join_lines(parts) + seq!['\n'] + p
        },
    decreases parts.len(),
{
    if parts.len() == 0 {
        assert(parts.push(p)[0] == p);
    } else {
        assert(parts.push(p)[0] == parts[0]);
        assert(parts.push(p).drop_first() =~= parts.drop_first().push(p));
        assert(join_lines(seq![p]) == p);
        lemma_join_lines_push(parts.drop_first(), p);
        if parts.len() == 1 {
            assert(join_lines(parts.push(p)) =~= join_lines(parts) + seq!['\n'] + p);
        } else {
            assert(join_lines(parts.push(p)) =~= join_lines(parts) + seq!['\n'] + p);
        }
    }
}

/// The id carried by a tool request or tool response item.
pub open spec fn spec_tool_id(c: MessageContent) -> Option<Seq<char>> {
    match c {
        MessageContent::ToolRequest(r) => Some(r.id@),
        MessageContent::ToolResponse(r) => Some(r.id@),
        _ => None,
    }
}

/// The id carried by a tool request item.
pub open spec fn spec_request_id(c: MessageContent) -> Option<Seq<char>> {
    match c {
        MessageContent::ToolRequest(r) => Some(r.id@),
        _ => None,
    }
}

/// The id carried by a tool response item.
pub open spec fn spec_response_id(c: MessageContent) -> Option<Seq<char>> {
    match c {
        MessageContent::ToolResponse(r) => Some(r.id@),
        _ => None,
    }
}

/// The texts of the text contents among a tool result's items, in order.
pub open spec fn response_texts(contents: Seq<Content>) -> Seq<Seq<char>>
    decreases contents.len(),
{
    if contents.len() == 0 {
        Seq::empty()
    } else {
        let rest = response_texts(contents.drop_first());
        match contents[0] {
            Content::Text(t) => seq![t.text@] + rest,
            _ => rest,
        }
    }
}

proof fn lemma_response_texts_push(contents: Seq<Content>, item: Content)
    ensures
        response_texts(contents.push(item)) == match item {
            Content::Text(t) => response_texts(contents).push(t.text@),
            _ => response_texts(contents),
        },
    decreases contents.len(),
{
    if contents.len() == 0 {
        assert(contents.push(item).drop_first() =~= Seq::<Content>::empty());
        assert(contents.push(item)[0] == item);
        assert(response_texts(Seq::<Content>::empty()) == Seq::<Seq<char>>::empty());
        match item {
            Content::Text(t) => {
                assert(response_texts(contents.push(item)) =~= response_texts(contents).push(
                    t.text@,
                ));
            },
            _ => {
                assert(response_texts(contents.push(item)) =~= response_texts(contents));
            },
        }
    } else {
        assert(contents.push(item)[0] == contents[0]);
        assert(contents.push(item).drop_first() =~= contents.drop_first().push(item));
        lemma_response_texts_push(contents.drop_first(), item);
        match item {
            Content::Text(t) => {
                assert(response_texts(contents.push(item)) =~= response_texts(contents).push(
                    t.text@,
                ));
            },
            _ => {
                assert(response_texts(contents.push(item)) =~= response_texts(contents));
            },
        }
    }
}

/// The text a tool response item renders to, if it has any text content.
pub open spec fn spec_tool_response_text(c: MessageContent) -> Option<Seq<char>> {
    match c {
        MessageContent::ToolResponse(res) => match res.tool_result {
            Ok(contents) => {
                let parts = response_texts(contents@);
                if parts.len() > 0 {
                    Some(join_lines(parts))
                } else {
                    None
                }
            },
            Err(_) => None,
        },
        _ => None,
    }
}

impl MessageContent {
    /// The joined text of a tool response's text contents, if this is a
    /// successful tool response holding at least one text content.
    pub fn as_tool_response_text(&self) -> (r: Option<String>)
        ensures
            match r {
                Some(s) => spec_tool_response_text(*self) == Some(s@),
                None => spec_tool_response_text(*self) is None,
            },
    {
        match self {
            MessageContent::ToolResponse(res) => match &res.tool_result {
                Ok(contents) => {
                    let n = contents.len();
                    let mut out = String::new();
                    let mut any: bool = false;
                    let mut i: usize = 0;
                    while i < n
                        invariant
                            i <= n,
                            n == contents@.len(),
                            any <==> response_texts(contents@.subrange(0, i as int)).len() > 0,
                            any ==> out@ == join_lines(
                                response_texts(contents@.subrange(0, i as int)),
                            ),
                            !any ==> out@ == Seq::<char>::empty(),
                        decreases n - i,
                    {
                        proof {
                            assert(contents@.subrange(0, i as int + 1) =~= contents@.subrange(
                                0,
                                i as int,
                            ).push(contents@[i as int]));
                            lemma_response_texts_push(
                                contents@.subrange(0, i as int),
                                contents@[i as int],
                            );
                        }
                        match &contents[i] {
                            Content::Text(t) => {
                                proof {
                                    lemma_join_lines_push(
                                        response_texts(contents@.subrange(0, i as int)),
                                        t.text@,
                                    );
                                }
                                if any {
                                    out.append("\n");
                                    out.append(t.text.as_str());
                                    proof {
                                        reveal_strlit("\n");
                                        assert("\n"@ =~= seq!['\n']);
                                        assert(out@ =~= join_lines(
                                            response_texts(contents@.subrange(0, i as int + 1)),
                                        ));
                                    }
                                } else {
                                    out.append(t.text.as_str());
                                    any = true;
                                    proof {
                                        assert(out@ =~= join_lines(
                                            response_texts(contents@.subrange(0, i as int + 1)),
                                        ));
                                    }
                                }
                            },
                            _ => {},
                        }
                        i = i + 1;
                    }
                    proof {
                        assert(contents@.subrange(0, n as int) =~= contents@);
                    }
                    if any {
                        Some(out)
                    } else {
                        None
                    }
                },
                Err(_) => None,
            },
            _ => None,
        }
    }
}

impl Message {
    /// The concatenated text of the message's text items, joined by
    /// newlines; non-text items are ignored.
    pub fn as_concat_text(&self) -> (r: String)
        ensures
            r@ == join_lines(text_parts(self.content@)),
    {
        let n = self.content.len();
        let mut out = String::new();
        let mut any: bool = false;
        let mut i: usize = 0;
        while i < n
            invariant
                i <= n,
                n == self.content@.len(),
                any <==> text_parts(self.content@.subrange(0, i as int)).len() > 0,
                any ==> out@ == join_lines(text_parts(self.content@.subrange(0, i as int))),
                !any ==> out@ == Seq::<char>::empty(),
            decreases n - i,
        {
            proof {
                assert(self.content@.subrange(0, i as int + 1) =~= self.content@.subrange(
                    0,
                    i as int,
                ).push(self.content@[i as int]));
                lemma_text_parts_push(self.content@.subrange(0, i as int), self.content@[i as int]);
            }
            match &self.content[i] {
                MessageContent::Text(t) => {
                    proof {
                        lemma_join_lines_push(
                            text_parts(self.content@.subrange(0, i as int)),
                            t.text@,
                        );
                    }
                    if any {
                        out.append("\n");
                        out.append(t.text.as_str());
                        proof {
                            reveal_strlit("\n");
                            assert("\n"@ =~= seq!['\n']);
                            assert(out@ =~= join_lines(
                                text_parts(self.content@.subrange(0, i as int + 1)),
                            ));
                        }
                    } else {
                        out.append(t.text.as_str());
                        any = true;
                        proof {
                            assert(out@ =~= join_lines(
                                text_parts(self.content@.subrange(0, i as int + 1)),
                            ));
                        }
                    }
                },
                _ => {},
            }
            i = i + 1;
        }
        proof {
            assert(self.content@.subrange(0, n as int) =~= self.content@);
        }
        out
    }

    /// Whether the message contains a tool request.
    pub fn is_tool_call(&self) -> (r: bool)
        ensures
            r == exists|i: int|
                0 <= i < self.content@.len() && #[trigger] self.content@[i] is ToolRequest,
    {
        let n = self.content.len();
        let mut i: usize = 0;
        while i < n
            invariant
                i <= n,
                n == self.content@.len(),
                forall|j: int| 0 <= j < i ==> !(#[trigger] self.content@[j] is ToolRequest),
            decreases n - i,
        {
            match &self.content[i] {
                MessageContent::ToolRequest(_) => {
                    return true;
                },
                _ => {},
            }
            i = i + 1;
        }
        false
    }

    /// Whether the message contains a tool response.
    pub fn is_tool_response(&self) -> (r: bool)
        ensures
            r == exists|i: int|
                0 <= i < self.content@.len() && #[trigger] self.content@[i] is ToolResponse,
    {
        let n = self.content.len();
        let mut i: usize = 0;
        while i < n
            invariant
                i <= n,
                n == self.content@.len(),
                forall|j: int| 0 <= j < i ==> !(#[trigger] self.content@[j] is ToolResponse),
            decreases n - i,
        {
            match &self.content[i] {
                MessageContent::ToolResponse(_) => {
                    return true;
                },
                _ => {},
            }
            i = i + 1;
        }
        false
    }

    /// Whether every content item is a text item.
    pub fn has_only_text_content(&self) -> (r: bool)
        ensures
            r == forall|i: int|
                0 <= i < self.content@.len() ==> #[trigger] self.content@[i] is Text,
    {
        let n = self.content.len();
        let mut i: usize = 0;
        while i < n
            invariant
                i <= n,
                n == self.content@.len(),
                forall|j: int| 0 <= j < i ==> #[trigger] self.content@[j] is Text,
            decreases n - i,
        {
            match &self.content[i] {
                MessageContent::Text(_) => {},
                _ => {
                    return false;
                },
            }
            i = i + 1;
        }
        true
    }

    /// Every distinct tool id referenced by a request or response item,
    /// each exactly once.
    pub fn get_tool_ids(&self) -> (r: Vec<String>)
        ensures
            forall|j1: int, j2: int| 0 <= j1 < j2 < r@.len() ==> r@[j1]@ != r@[j2]@,
            forall|j: int| #![trigger r@[j]]
                0 <= j < r@.len() ==> ids_of(self.content@, IdKind::Any).contains(r@[j]@),
            forall|i: int| #![trigger ids_of(self.content@, IdKind::Any)[i]]
                0 <= i < ids_of(self.content@, IdKind::Any).len() ==> seq_contains_str(
                    r@,
                    ids_of(self.content@, IdKind::Any)[i],
                ),
    {
        self.collect_ids(IdKind::Any)
    }

    /// Every distinct tool id referenced by a request item.
    pub fn get_tool_request_ids(&self) -> (r: Vec<String>)
        ensures
            forall|j1: int, j2: int| 0 <= j1 < j2 < r@.len() ==> r@[j1]@ != r@[j2]@,
            forall|j: int| #![trigger r@[j]]
                0 <= j < r@.len() ==> ids_of(self.content@, IdKind::Request).contains(r@[j]@),
            forall|i: int| #![trigger ids_of(self.content@, IdKind::Request)[i]]
                0 <= i < ids_of(self.content@, IdKind::Request).len() ==> seq_contains_str(
                    r@,
                    ids_of(self.content@, IdKind::Request)[i],
                ),
    {
        self.collect_ids(IdKind::Request)
    }

    /// Every distinct tool id referenced by a response item.
    pub fn get_tool_response_ids(&self) -> (r: Vec<String>)
        ensures
            forall|j1: int, j2: int| 0 <= j1 < j2 < r@.len() ==> r@[j1]@ != r@[j2]@,
            forall|j: int| #![trigger r@[j]]
                0 <= j < r@.len() ==> ids_of(self.content@, IdKind::Response).contains(r@[j]@),
            forall|i: int| #![trigger ids_of(self.content@, IdKind::Response)[i]]
                0 <= i < ids_of(self.content@, IdKind::Response).len() ==> seq_contains_str(
                    r@,
                    ids_of(self.content@, IdKind::Response)[i],
                ),
    {
        self.collect_ids(IdKind::Response)
    }

    fn collect_ids(&self, kind: IdKind) -> (r: Vec<String>)
        ensures
            forall|j1: int, j2: int| 0 <= j1 < j2 < r@.len() ==> r@[j1]@ != r@[j2]@,
            forall|j: int| #![trigger r@[j]]
                0 <= j < r@.len() ==> ids_of(self.content@, kind).contains(r@[j]@),
            forall|i: int| #![trigger ids_of(self.content@, kind)[i]]
                0 <= i < ids_of(self.content@, kind).len() ==> seq_contains_str(
                    r@,
                    ids_of(self.content@, kind)[i],
                ),
    {
        let n = self.content.len();
        let mut all: Vec<String> = Vec::new();
        let mut i: usize = 0;
        while i < n
            invariant
                i <= n,
                n == self.content@.len(),
                all.deep_view() == ids_of(self.content@.subrange(0, i as int), kind),
            decreases n - i,
        {
            proof {
                assert(self.content@.subrange(0, i as int + 1) =~= self.content@.subrange(
                    0,
                    i as int,
                ).push(self.content@[i as int]));
                lemma_ids_of_push(self.content@.subrange(0, i as int), self.content@[i as int], kind);
            }
            let idref: Option<&String> = match &self.content[i] {
                MessageContent::ToolRequest(req) => {
                    if kind == IdKind::Any || kind == IdKind::Request {
                        Some(&req.id)
                    } else {
                        None
                    }
                },
                MessageContent::ToolResponse(res) => {
                    if kind == IdKind::Any || kind == IdKind::Response {
                        Some(&res.id)
                    } else {
                        None
                    }
                },
                _ => None,
            };
            match idref {
                Some(id) => {
                    all.push(id.clone());
                    proof {
                        assert(all.deep_view() =~= ids_of(
                            self.content@.subrange(0, i as int + 1),
                            kind,
                        ));
                    }
                },
                None => {
                    proof {
                        assert(all.deep_view() =~= ids_of(
                            self.content@.subrange(0, i as int + 1),
                            kind,
                        ));
                    }
                },
            }
            i = i + 1;
        }
        proof {
            assert(self.content@.subrange(0, n as int) =~= self.content@);
        }
        let r = dedup_strings(&all);
        proof {
            let ids = ids_of(self.content@, kind);
            assert forall|j: int| #![trigger r@[j]] 0 <= j < r@.len() implies ids.contains(
                r@[j]@,
            ) by {
                let i0 = choose|i: int| 0 <= i < all@.len() && all@[i]@ == r@[j]@;
                assert(all.deep_view()[i0] == all@[i0]@);
                assert(ids[i0] == r@[j]@);
            }
            assert forall|i: int| #![trigger ids[i]] 0 <= i < ids.len() implies seq_contains_str(
                r@,
                ids[i],
            ) by {
                assert(all.deep_view()[i] == all@[i]@);
                assert(all@[i]@ == ids[i]);
            }
        }
        r
    }
}

/// Which tool ids a query collects.
#[derive(Clone, Copy, Debug, PartialEq, Eq, Structural)]
pub enum IdKind {
    Any,
    Request,
    Response,
}

/// The id an item contributes to a query of the given kind.
pub open spec fn id_of_item(c: MessageContent, kind: IdKind) -> Option<Seq<char>> {
    match kind {
        IdKind::Any => spec_tool_id(c),
        IdKind::Request => spec_request_id(c),
        IdKind::Response => spec_response_id(c),
    }
}

/// All ids contributed by `content`, in order, duplicates included.
pub open spec fn ids_of(content: Seq<MessageContent>, kind: IdKind) -> Seq<Seq<char>>
    decreases content.len(),
{
    if content.len() == 0 {
        Seq::empty()
    } else {
        let rest = ids_of(content.drop_first(), kind);
        match id_of_item(content[0], kind) {
            Some(id) => seq![id] + rest,
            None => rest,
        }
    }
}

proof fn lemma_ids_of_push(content: Seq<MessageContent>, item: MessageContent, kind: IdKind)
    ensures
        ids_of(content.push(item), kind) == match id_of_item(item, kind) {
            Some(id) => ids_of(content, kind).push(id),
            None => ids_of(content, kind),
        },
    decreases content.len(),
{
    if content.len() == 0 {
        assert(content.push(item).drop_first() =~= Seq::<MessageContent>::empty());
        assert(content.push(item)[0] == item);
        assert(ids_of(Seq::<MessageContent>::empty(), kind) == Seq::<Seq<char>>::empty());
        match id_of_item(item, kind) {
            Some(id) => {
                assert(ids_of(content.push(item), kind) =~= ids_of(content, kind).push(id));
            },
            None => {
                assert(ids_of(content.push(item), kind) =~= ids_of(content, kind));
            },
        }
    } else {
        assert(content.push(item)[0] == content[0]);
        assert(content.push(item).drop_first() =~= content.drop_first().push(item));
        lemma_ids_of_push(content.drop_first(), item, kind);
        match id_of_item(item, kind) {
            Some(id) => {
                assert(ids_of(content.push(item), kind) =~= ids_of(content, kind).push(id));
            },
            None => {
                assert(ids_of(content.push(item), kind) =~= ids_of(content, kind));
            },
        }
    }
}

/// The sanitized form of one content item: text is stripped of tag
/// characters, every other kind is untouched.
pub open spec fn spec_sanitize_item(c: MessageContentView) -> MessageContentView {
    match c {
        MessageContentView::Text(t) => MessageContentView::Text(sanitize_text(t)),
        _ => c,
    }
}

/// The sanitized form of a content list, item by item.
pub open spec fn spec_sanitize_items(content: Seq<MessageContentView>) -> Seq<MessageContentView> {
    Seq::new(content.len(), |i: int| spec_sanitize_item(content[i]))
}

/// Sanitizing a content list twice equals sanitizing it once.
pub proof fn lemma_sanitize_items_idempotent(content: Seq<MessageContentView>)
    ensures
        spec_sanitize_items(spec_sanitize_items(content)) == spec_sanitize_items(content),
{
    assert forall|i: int| 0 <= i < content.len() implies #[trigger] spec_sanitize_item(
        spec_sanitize_item(content[i]),
    ) == spec_sanitize_item(content[i]) by {
        match content[i] {
            MessageContentView::Text(t) => {
                crate::sanitize::lemma_sanitize_idempotent(t);
            },
            _ => {},
        }
    }
    assert(spec_sanitize_items(spec_sanitize_items(content)) =~= spec_sanitize_items(content));
}

/// Sanitizing a content list whose texts are already clean is the identity.
pub proof fn lemma_sanitize_items_clean_identity(content: Seq<MessageContentView>)
    requires
        forall|i: int|
            0 <= i < content.len() ==> match #[trigger] content[i] {
                MessageContentView::Text(t) => crate::sanitize::is_clean_text(t),
                _ => true,
            },
    ensures
        spec_sanitize_items(content) == content,
{
    assert forall|i: int| 0 <= i < content.len() implies #[trigger] spec_sanitize_item(content[i])
        == content[i] by {
        match content[i] {
            MessageContentView::Text(t) => {
                crate::sanitize::lemma_sanitize_clean_identity(t);
            },
            _ => {},
        }
    }
    assert(spec_sanitize_items(content) =~= content);
}

/// Sanitize a freshly deserialized content list: every text item is
/// stripped of tag characters, exactly once, at this boundary.
pub fn sanitize_contents(content: &Vec<MessageContent>) -> (r: Vec<MessageContent>)
    ensures
        r.deep_view() == spec_sanitize_items(content.deep_view()),
{
    let n = content.len();
    let mut out: Vec<MessageContent> = Vec::new();
    let mut i: usize = 0;
    while i < n
        invariant
            i <= n,
            n == content@.len(),
            out@.len() == i,
            forall|j: int|
                0 <= j < i ==> #[trigger] out@[j].deep_view() == spec_sanitize_item(
                    content@[j].deep_view(),
                ),
        decreases n - i,
    {
        match &content[i] {
            MessageContent::Text(t) => {
                out.push(MessageContent::Text(TextContent { text: sanitize_unicode_tags(
                    t.text.as_str(),
                ) }));
            },
            other => {
                out.push(other.clone());
            },
        }
        i = i + 1;
    }
    proof {
        assert(out.deep_view() =~= spec_sanitize_items(content.deep_view()));
    }
    out
}

impl Message {
    /// Build a message from deserialized parts, sanitizing the text items
    /// at this boundary.
    pub fn from_deserialized(
        id: Option<String>,
        role: Role,
        created: i64,
        content: Vec<MessageContent>,
    ) -> (m: Message)
        ensures
            m.id == id,
            m.role == role,
            m.created == created,
            m.content.deep_view() == spec_sanitize_items(content.deep_view()),
    {
        let sanitized = sanitize_contents(&content);
        Message { id, role, created, content: sanitized }
    }
}

/// The one-line rendering of a decoded-or-failed tool call.
pub open spec fn spec_readable_tool_request(r: ToolRequest) -> Seq<char> {
    match r.tool_call {
        Ok(tc) => "Tool: "@ + tc.name@ + ", Args: "@ + crate::args::render_args(
            tc.arguments.entries@,
        ),
        Err(e) => "Invalid tool call: "@ + crate::strutil::spec_int_str(e.code as int) + ": "@
            + e.message@,
    }
}

impl ToolRequest {
    /// Render the request for human reading: the tool and its arguments,
    /// or the error that made the call undecodable.
    pub fn to_readable_string(&self) -> (r: String)
        ensures
            r@ == spec_readable_tool_request(*self),
    {
        match &self.tool_call {
            Ok(tc) => {
                let mut out = String::new();
                out.append("Tool: ");
                out.append(tc.name.as_str());
                out.append(", Args: ");
                let rendered = tc.arguments.render();
                out.append(rendered.as_str());
                proof {
                    assert(out@ =~= spec_readable_tool_request(*self));
                }
                out
            },
            Err(e) => {
                let mut out = String::new();
                out.append("Invalid tool call: ");
                let code = crate::strutil::i64_to_string(e.code);
                out.append(code.as_str());
                out.append(": ");
                out.append(e.message.as_str());
                proof {
                    assert(out@ =~= spec_readable_tool_request(*self));
                }
                out
            },
        }
    }
}

/// The one-line rendering of an error, as a provider reports it.
pub open spec fn spec_error_str(e: ErrorData) -> Seq<char> {
    crate::strutil::spec_int_str(e.code as int) + ": "@ + e.message@
}

fn error_to_string(e: &ErrorData) -> (r: String)
    ensures
        r@ == spec_error_str(*e),
{
    let mut out = crate::strutil::i64_to_string(e.code);
    out.append(": ");
    out.append(e.message.as_str());
    proof {
        assert(out@ =~= spec_error_str(*e));
    }
    out
}

/// The one-line rendering of one content item.
pub open spec fn spec_display_content(c: MessageContent) -> Seq<char> {
    match c {
        MessageContent::Text(t) => t.text@,
        MessageContent::Image(i) => "[Image: "@ + i.mime_type@ + "]"@,
        MessageContent::ToolRequest(r) => "[ToolRequest: "@ + spec_readable_tool_request(r)
            + "]"@,
        MessageContent::ToolResponse(r) => "[ToolResponse: "@ + (match r.tool_result {
            Ok(contents) => crate::strutil::spec_nat_digits(contents@.len() as nat)
                + " content item(s)"@,
            Err(e) => "Error: "@ + spec_error_str(e),
        }) + "]"@,
        MessageContent::ToolConfirmationRequest(r) => "[ToolConfirmationRequest: "@
            + r.tool_name@ + "]"@,
        MessageContent::FrontendToolRequest(r) => match r.tool_call {
            Ok(tc) => "[FrontendToolRequest: "@ + tc.name@ + "]"@,
            Err(e) => "[FrontendToolRequest: Error: "@ + spec_error_str(e) + "]"@,
        },
        MessageContent::Thinking(t) => "[Thinking: "@ + t.thinking@ + "]"@,
        MessageContent::RedactedThinking(_) => "[RedactedThinking]"@,
        MessageContent::ContextLengthExceeded(r) => "[ContextLengthExceeded: "@ + r.msg@ + "]"@,
        MessageContent::SummarizationRequested(r) => "[SummarizationRequested: "@ + r.msg@
            + "]"@,
    }
}

impl MessageContent {
    /// Render the item for human reading.
    pub fn display_string(&self) -> (r: String)
        ensures
            r@ == spec_display_content(*self),
    {
        match self {
            MessageContent::Text(t) => {
                let mut out = String::new();
                out.append(t.text.as_str());
                proof {
                    assert(out@ =~= spec_display_content(*self));
                }
                out
            },
            MessageContent::Image(i) => {
                let mut out = String::new();
                out.append("[Image: ");
                out.append(i.mime_type.as_str());
                out.append("]");
                proof {
                    assert(out@ =~= spec_display_content(*self));
                }
                out
            },
            MessageContent::ToolRequest(r) => {
                let mut out = String::new();
                out.append("[ToolRequest: ");
                let inner = r.to_readable_string();
                out.append(inner.as_str());
                out.append("]");
                proof {
                    assert(out@ =~= spec_display_content(*self));
                }
                out
            },
            MessageContent::ToolResponse(r) => {
                let mut out = String::new();
                out.append("[ToolResponse: ");
                match &r.tool_result {
                    Ok(contents) => {
                        let count = crate::strutil::u64_to_string(contents.len() as u64);
                        out.append(count.as_str());
                        out.append(" content item(s)");
                    },
                    Err(e) => {
                        out.append("Error: ");
                        let msg = error_to_string(e);
                        out.append(msg.as_str());
                    },
                }
                out.append("]");
                proof {
                    assert(out@ =~= spec_display_content(*self));
                }
                out
            },
            MessageContent::ToolConfirmationRequest(r) => {
                let mut out = String::new();
                out.append("[ToolConfirmationRequest: ");
                out.append(r.tool_name.as_str());
                out.append("]");
                proof {
                    assert(out@ =~= spec_display_content(*self));
                }
                out
            },
            MessageContent::FrontendToolRequest(r) => {
                let mut out = String::new();
                match &r.tool_call {
                    Ok(tc) => {
                        out.append("[FrontendToolRequest: ");
                        out.append(tc.name.as_str());
                        out.append("]");
                    },
                    Err(e) => {
                        out.append("[FrontendToolRequest: Error: ");
                        let msg = error_to_string(e);
                        out.append(msg.as_str());
                        out.append("]");
                    },
                }
                proof {
                    assert(out@ =~= spec_display_content(*self));
                }
                out
            },
            MessageContent::Thinking(t) => {
                let mut out = String::new();
                out.append("[Thinking: ");
                out.append(t.thinking.as_str());
                out.append("]");
                proof {
                    assert(out@ =~= spec_display_content(*self));
                }
                out
            },
            MessageContent::RedactedThinking(_) => {
                let mut out = String::new();
                out.append("[RedactedThinking]");
                proof {
                    assert(out@ =~= spec_display_content(*self));
                }
                out
            },
            MessageContent::ContextLengthExceeded(r) => {
                let mut out = String::new();
                out.append("[ContextLengthExceeded: ");
                out.append(r.msg.as_str());
                out.append("]");
                proof {
                    assert(out@ =~= spec_display_content(*self));
                }
                out
            },
            MessageContent::SummarizationRequested(r) => {
                let mut out = String::new();
                out.append("[SummarizationRequested: ");
                out.append(r.msg.as_str());
                out.append("]");
                proof {
                    assert(out@ =~= spec_display_content(*self));
                }
                out
            },
        }
    }
}

/// The renderings of the items, space-separated.
pub open spec fn spec_debug_items(content: Seq<MessageContent>) -> Seq<char>
    decreases content.len(),
{
    if content.len() == 0 {
        Seq::empty()
    } else if content.len() == 1 {
        spec_display_content(content[0])
    } else {
        spec_display_content(content[0]) + " "@ + spec_debug_items(content.drop_first())
    }
}

proof fn lemma_debug_items_push(content: Seq<MessageContent>, c: MessageContent)
    ensures
        spec_debug_items(content.push(c)) == if content.len() == 0 {
            spec_display_content(c)
        } else {
            spec_debug_items(content) + " "@ + spec_display_content(c)
        },
    decreases content.len(),
{
    if content.len() == 0 {
        assert(content.push(c)[0] == c);
    } else {
        assert(content.push(c)[0] == content[0]);
        assert(content.push(c).drop_first() =~= content.drop_first().push(c));
        assert(spec_debug_items(seq![c]) == spec_display_content(c));
        lemma_debug_items_push(content.drop_first(), c);
        if content.len() == 1 {
            assert(spec_debug_items(content.push(c)) =~= spec_debug_items(content) + " "@
                + spec_display_content(c));
        } else {
            assert(spec_debug_items(content.push(c)) =~= spec_debug_items(content) + " "@
                + spec_display_content(c));
        }
    }
}

/// The debug rendering of a whole message: its role, a colon, and its
/// items joined by single spaces.
pub open spec fn spec_debug_message(m: Message) -> Seq<char> {
    (match m.role {
        Role::User => "User"@,
        Role::Assistant => "Assistant"@,
    }) + ": "@ + spec_debug_items(m.content@)
}

impl Message {
    /// Render the message for debugging: role, then every item.
    pub fn debug(&self) -> (r: String)
        ensures
            r@ == spec_debug_message(*self),
    {
        let mut out = String::new();
        match self.role {
            Role::User => out.append("User"),
            Role::Assistant => out.append("Assistant"),
        }
        out.append(": ");
        let ghost head = out@;
        let n = self.content.len();
        let mut i: usize = 0;
        proof {
            assert(out@ =~= head + spec_debug_items(self.content@.subrange(0, 0)));
        }
        while i < n
            invariant
                i <= n,
                n == self.content@.len(),
                head == (match self.role {
                    Role::User => "User"@,
                    Role::Assistant => "Assistant"@,
                }) + ": "@,
                out@ == head + spec_debug_items(self.content@.subrange(0, i as int)),
            decreases n - i,
        {
            proof {
                assert(self.content@.subrange(0, i as int + 1) =~= self.content@.subrange(
                    0,
                    i as int,
                ).push(self.content@[i as int]));
                lemma_debug_items_push(
                    self.content@.subrange(0, i as int),
                    self.content@[i as int],
                );
            }
            if i > 0 {
                out.append(" ");
            }
            let rendered = self.content[i].display_string();
            out.append(rendered.as_str());
            proof {
                assert(out@ =~= head + spec_debug_items(self.content@.subrange(0, i as int + 1)));
            }
            i = i + 1;
        }
        proof {
            assert(self.content@.subrange(0, n as int) =~= self.content@);
        }
        out
    }
}

/// Who a prompt message is from.
#[derive(Clone, Copy, Debug, PartialEq, Eq, Structural)]
pub enum PromptMessageRole {
    User,
    Assistant,
}

/// The content of one prompt message from a tool provider.
#[derive(Debug, PartialEq, Eq)]
pub enum PromptMessageContent {
    Text { text: String },
    Image { image: ImageContent },
    Resource { resource: ResourceContents },
}

/// One prompt message as a tool provider supplies it.
#[derive(Debug, PartialEq, Eq)]
pub struct PromptMessage {
    pub role: PromptMessageRole,
    pub content: PromptMessageContent,
}

/// The message-model item a provider content item becomes: text and
/// images carry over, a resource becomes its text (binary resources and
/// audio content become marker text).
pub open spec fn spec_content_item(c: ContentView) -> MessageContentView {
    match c {
        ContentView::Text(t) => MessageContentView::Text(t),
        ContentView::Image { data, mime_type } => MessageContentView::Image { data, mime_type },
        ContentView::Resource(r) => match r {
            ResourceContentsView::Text { text, .. } => MessageContentView::Text(text),
            ResourceContentsView::Blob { blob, .. } => MessageContentView::Text(
                "[Binary content: "@ + blob + "]"@,
            ),
        },
        ContentView::Audio => MessageContentView::Text("[Audio content: not supported]"@),
    }
}

impl MessageContent {
    /// Convert one provider content item into the message model.
    pub fn from_content(content: Content) -> (r: MessageContent)
        ensures
            r.deep_view() == spec_content_item(content.deep_view()),
    {
        match content {
            Content::Text(t) => MessageContent::Text(t),
            Content::Image(i) => MessageContent::Image(i),
            Content::Resource(res) => match res {
                ResourceContents::TextResourceContents { text, .. } => MessageContent::Text(
                    TextContent { text },
                ),
                ResourceContents::BlobResourceContents { blob, .. } => {
                    let mut text = String::new();
                    text.append("[Binary content: ");
                    text.append(blob.as_str());
                    text.append("]");
                    proof {
                        assert(text@ =~= "[Binary content: "@ + blob@ + "]"@);
                    }
                    MessageContent::Text(TextContent { text })
                },
            },
            Content::Audio => {
                let mut text = String::new();
                text.append("[Audio content: not supported]");
                proof {
                    assert(text@ =~= "[Audio content: not supported]"@);
                }
                MessageContent::Text(TextContent { text })
            },
        }
    }
}

/// The message-model item a prompt content item becomes.
pub open spec fn spec_prompt_item(c: PromptMessageContent) -> MessageContentView {
    match c {
        PromptMessageContent::Text { text } => MessageContentView::Text(text@),
        PromptMessageContent::Image { image } => MessageContentView::Image {
            data: image.data@,
            mime_type: image.mime_type@,
        },
        PromptMessageContent::Resource { resource } => match resource {
            ResourceContents::TextResourceContents { text, .. } => MessageContentView::Text(
                text@,
            ),
            ResourceContents::BlobResourceContents { blob, .. } => MessageContentView::Text(
                "[Binary content: "@ + blob@ + "]"@,
            ),
        },
    }
}

impl Message {
    /// Convert one prompt message into a message of the model, carrying
    /// its role and single content item over.
    pub fn from_prompt_message(pm: PromptMessage) -> (m: Message)
        ensures
            m.id is None,
            m.role == (match pm.role {
                PromptMessageRole::User => Role::User,
                PromptMessageRole::Assistant => Role::Assistant,
            }),
            m.content@.len() == 1,
            m.content@[0].deep_view() == spec_prompt_item(pm.content),
    {
        let role = match pm.role {
            PromptMessageRole::User => Role::User,
            PromptMessageRole::Assistant => Role::Assistant,
        };
        let item = match pm.content {
            PromptMessageContent::Text { text } => MessageContent::Text(TextContent { text }),
            PromptMessageContent::Image { image } => MessageContent::Image(image),
            PromptMessageContent::Resource { resource } => match resource {
                ResourceContents::TextResourceContents { text, .. } => MessageContent::Text(
                    TextContent { text },
                ),
                ResourceContents::BlobResourceContents { blob, .. } => {
                    let mut text = String::new();
                    text.append("[Binary content: ");
                    text.append(blob.as_str());
                    text.append("]");
                    proof {
                        assert(text@ =~= "[Binary content: "@ + blob@ + "]"@);
                    }
                    MessageContent::Text(TextContent { text })
                },
            },
        };
        let mut content: Vec<MessageContent> = Vec::new();
        content.push(item);
        let base = match role {
            Role::User => Message { id: None, role: Role::User, created: now_timestamp(), content },
            Role::Assistant => Message {
                id: None,
                role: Role::Assistant,
                created: now_timestamp(),
                content,
            },
        };
        base
    }
}

fn clone_opt_string(o: &Option<String>) -> (res: Option<String>)
    ensures
        res == *o,
{
    match o {
        Some(s) => Some(s.clone()),
        None => None,
    }
}

fn clone_error(e: &ErrorData) -> (res: ErrorData)
    ensures
        res == *e,
{
    ErrorData { code: e.code, message: e.message.clone() }
}

fn clone_tool_call_result(r: &ToolResult<ToolCall>) -> (res: ToolResult<ToolCall>)
    ensures
        view_tool_call_result(res) == view_tool_call_result(*r),
{
    match r {
        Ok(tc) => Ok(ToolCall { name: tc.name.clone(), arguments: tc.arguments.clone() }),
        Err(e) => Err(clone_error(e)),
    }
}

impl Clone for ResourceContents {
    /// Cloning keeps the value.
    fn clone(&self) -> (res: Self)
        ensures
            res == *self,
    {
        match self {
            ResourceContents::TextResourceContents { uri, mime_type, text } => {
                ResourceContents::TextResourceContents {
                    uri: uri.clone(),
                    mime_type: clone_opt_string(mime_type),
                    text: text.clone(),
                }
            },
            ResourceContents::BlobResourceContents { uri, mime_type, blob } => {
                ResourceContents::BlobResourceContents {
                    uri: uri.clone(),
                    mime_type: clone_opt_string(mime_type),
                    blob: blob.clone(),
                }
            },
        }
    }
}

impl Clone for Content {
    /// Cloning keeps the value.
    fn clone(&self) -> (res: Self)
        ensures
            res == *self,
    {
        match self {
            Content::Text(t) => Content::Text(TextContent { text: t.text.clone() }),
            Content::Image(i) => Content::Image(
                ImageContent { data: i.data.clone(), mime_type: i.mime_type.clone() },
            ),
            Content::Resource(r) => Content::Resource(r.clone()),
            Content::Audio => Content::Audio,
        }
    }
}

fn clone_contents(v: &Vec<Content>) -> (res: Vec<Content>)
    ensures
        res@ == v@,
{
    let n = v.len();
    let mut out: Vec<Content> = Vec::new();
    let mut i: usize = 0;
    while i < n
        invariant
            i <= n,
            n == v@.len(),
            out@ == v@.subrange(0, i as int),
        decreases n - i,
    {
        out.push(v[i].clone());
        proof {
            assert(out@ =~= v@.subrange(0, i as int + 1));
        }
        i = i + 1;
    }
    proof {
        assert(out@ =~= v@);
    }
    out
}

fn clone_contents_result(r: &ToolResult<Vec<Content>>) -> (res: ToolResult<Vec<Content>>)
    ensures
        view_contents_result(res) == view_contents_result(*r),
{
    match r {
        Ok(v) => Ok(clone_contents(v)),
        Err(e) => Err(clone_error(e)),
    }
}

impl Clone for ToolRequest {
    /// Cloning keeps the modeled value.
    fn clone(&self) -> (res: Self)
        ensures
            res.deep_view() == self.deep_view(),
            res.id == self.id,
    {
        ToolRequest { id: self.id.clone(), tool_call: clone_tool_call_result(&self.tool_call) }
    }
}

impl Clone for ToolResponse {
    /// Cloning keeps the modeled value.
    fn clone(&self) -> (res: Self)
        ensures
            res.deep_view() == self.deep_view(),
            res.id == self.id,
    {
        ToolResponse {
            id: self.id.clone(),
            tool_result: clone_contents_result(&self.tool_result),
        }
    }
}

impl Clone for FrontendToolRequest {
    /// Cloning keeps the modeled value.
    fn clone(&self) -> (res: Self)
        ensures
            res.deep_view() == self.deep_view(),
            res.id == self.id,
    {
        FrontendToolRequest {
            id: self.id.clone(),
            tool_call: clone_tool_call_result(&self.tool_call),
        }
    }
}

impl Clone for MessageContent {
    /// Cloning keeps the modeled value.
    fn clone(&self) -> (res: Self)
        ensures
            res.deep_view() == self.deep_view(),
    {
        match self {
            MessageContent::Text(t) => MessageContent::Text(TextContent { text: t.text.clone() }),
            MessageContent::Image(i) => MessageContent::Image(
                ImageContent { data: i.data.clone(), mime_type: i.mime_type.clone() },
            ),
            MessageContent::ToolRequest(r) => MessageContent::ToolRequest(r.clone()),
            MessageContent::ToolResponse(r) => MessageContent::ToolResponse(r.clone()),
            MessageContent::ToolConfirmationRequest(r) => MessageContent::ToolConfirmationRequest(
                ToolConfirmationRequest {
                    id: r.id.clone(),
                    tool_name: r.tool_name.clone(),
                    arguments: r.arguments.clone(),
                    prompt: clone_opt_string(&r.prompt),
                },
            ),
            MessageContent::FrontendToolRequest(r) => MessageContent::FrontendToolRequest(
                r.clone(),
            ),
            MessageContent::Thinking(t) => MessageContent::Thinking(
                ThinkingContent { thinking: t.thinking.clone(), signature: t.signature.clone() },
            ),
            MessageContent::RedactedThinking(t) => MessageContent::RedactedThinking(
                RedactedThinkingContent { data: t.data.clone() },
            ),
            MessageContent::ContextLengthExceeded(c) => MessageContent::ContextLengthExceeded(
                ContextLengthExceeded { msg: c.msg.clone() },
            ),
            MessageContent::SummarizationRequested(s) => MessageContent::SummarizationRequested(
                SummarizationRequested { msg: s.msg.clone() },
            ),
        }
    }
}

fn clone_message_contents(v: &Vec<MessageContent>) -> (res: Vec<MessageContent>)
    ensures
        res.deep_view() == v.deep_view(),
        res@.len() == v@.len(),
{
    let n = v.len();
    let mut out: Vec<MessageContent> = Vec::new();
    let mut i: usize = 0;
    while i < n
        invariant
            i <= n,
            n == v@.len(),
            out@.len() == i,
            forall|j: int| 0 <= j < i ==> #[trigger] out@[j].deep_view() == v@[j].deep_view(),
        decreases n - i,
    {
        out.push(v[i].clone());
        i = i + 1;
    }
    proof {
        assert(out.deep_view() =~= v.deep_view());
    }
    out
}

impl Clone for Message {
    /// Cloning keeps the modeled value.
    fn clone(&self) -> (res: Self)
        ensures
            res.deep_view() == self.deep_view(),
            res.id == self.id,
            res.role == self.role,
            res.created == self.created,
    {
        Message {
            id: clone_opt_string(&self.id),
            role: self.role,
            created: self.created,
            content: clone_message_contents(&self.content),
        }
    }
}

} // verus!
