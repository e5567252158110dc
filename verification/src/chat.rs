//! The library chat: its settings, the message list sent to the model, which tool
//! calls need the user's confirmation, and how a tool call is decoded and answered.
use vstd::prelude::*;
use crate::ai_settings::{build_providers, providers_offered, nonempty, AiSettings, ProviderInfo};
use crate::text::{chars_of, concat, contains_seq, opt_view, str_contains, push_all, push_str, string_from_chars, str_eq};
use crate::zotero::{field_value, get_field};
use crate::json::{json_error_of, json_int_field, json_int_field_of, json_parse_error, json_text_field, json_text_field_of};

verus! {

broadcast use vstd::string::group_string_axioms;

/// A progress event of a running chat.
pub enum ChatUpdate {
    TextChunk { text: String },
    ToolCall { tool_call_id: String, name: String, arguments: String, needs_confirmation: bool },
    ToolResult { tool_call_id: String, name: String, result: String, is_error: bool },
    Done { stop_reason: String },
    Error { message: String },
}

/// A message the user sends, with the conversation so far.
pub struct ChatSendInput {
    pub messages: Vec<ChatHistoryMessage>,
    pub user_message: String,
    pub images: Vec<ImageInput>,
    pub system_prompt: String,
    pub paper_id: Option<String>,
    pub model: Option<String>,
    pub provider_id: Option<String>,
    pub confirm_writes: bool,
}

/// One earlier message of the conversation.
pub struct ChatHistoryMessage {
    pub role: String,
    pub content: String,
}

/// An image attached to the new message, base64-encoded.
pub struct ImageInput {
    pub base64_data: String,
    pub mime_type: String,
}

/// A saved system prompt as the settings screen shows it.
pub struct PresetResponse {
    pub name: String,
    pub prompt: String,
}

/// The chat settings as the chat panel shows them.
pub struct ChatConfigResponse {
    pub active_preset: String,
    pub confirm_tool_calls: bool,
    pub ai_configured: bool,
    pub default_model: String,
    pub presets: Vec<PresetResponse>,
    pub providers: Vec<ProviderInfo>,
}

/// A saved system prompt as the settings screen sends it.
pub struct PresetInput {
    pub name: String,
    pub prompt: String,
}

/// An update of the chat settings; absent fields are left as they are.
pub struct UpdateChatConfigInput {
    pub active_preset: Option<String>,
    pub confirm_tool_calls: Option<bool>,
    pub presets: Option<Vec<PresetInput>>,
}

/// A saved system prompt.
pub struct SystemPromptPreset {
    pub name: String,
    pub prompt: String,
}

/// The chat section of the application settings.
pub struct ChatSettings {
    pub active_preset: String,
    pub confirm_tool_calls: bool,
    pub presets: Vec<SystemPromptPreset>,
}

/// The tools that change the library; they may need the user's confirmation.
pub open spec fn write_tool(name: Seq<char>) -> bool {
    ||| name == "add_note"@
    ||| name == "add_tag_to_paper"@
    ||| name == "add_paper_to_collection"@
    ||| name == "update_paper_status"@
}

/// A parameter of a chat tool: its name, JSON type, description, whether it must be
/// given, and the values it may take (none listed when it is free).
pub struct ToolParam {
    pub name: &'static str,
    pub kind: &'static str,
    pub description: &'static str,
    pub required: bool,
    pub choices: Vec<&'static str>,
}

/// A tool that the chat offers to the model: its name, description and parameters.
pub struct ToolDefinition {
    pub name: &'static str,
    pub description: &'static str,
    pub params: Vec<ToolParam>,
}

/// A parameter as the tool table states it.
pub open spec fn tool_param(name: Seq<char>, kind: Seq<char>, description: Seq<char>, required: bool, choices: Seq<Seq<char>>) -> (Seq<char>, Seq<char>, Seq<char>, bool, Seq<Seq<char>>) {
    (name, kind, description, required, choices)
}

/// The tools the chat offers, in order: seven that read the library, then the four
/// that change it (see [`write_tool`]).
pub open spec fn tool_table() -> Seq<(Seq<char>, Seq<char>, Seq<(Seq<char>, Seq<char>, Seq<char>, bool, Seq<Seq<char>>)>)> {
    seq![
        ("search_papers"@, "Search the user's paper library using full-text search."@, seq![tool_param("query"@, "string"@, "Search query"@, true, seq![]), tool_param("limit"@, "integer"@, "Max results to return (default 10)"@, false, seq![])]),
        ("get_paper"@, "Get full details of a specific paper by its ID."@, seq![tool_param("paper_id"@, "string"@, "The paper ID"@, true, seq![])]),
        ("list_papers"@, "List papers in the library, optionally filtered by collection, tag, or read status."@, seq![tool_param("collection_id"@, "string"@, "Filter by collection ID"@, false, seq![]), tool_param("tag_name"@, "string"@, "Filter by tag name"@, false, seq![]), tool_param("read_status"@, "string"@, "Filter by status: unread, reading, read, skipped"@, false, seq![]), tool_param("limit"@, "integer"@, "Max results (default 20)"@, false, seq![])]),
        ("list_collections"@, "List all paper collections (folders) in the library."@, seq![]),
        ("list_tags"@, "List all tags used in the library."@, seq![]),
        ("list_notes"@, "List all notes for a specific paper."@, seq![tool_param("paper_id"@, "string"@, "The paper ID"@, true, seq![])]),
        ("list_annotations"@, "List all annotations (highlights, underlines, notes) for a paper."@, seq![tool_param("paper_id"@, "string"@, "The paper ID"@, true, seq![])]),
        ("add_note"@, "Add a note to a paper."@, seq![tool_param("paper_id"@, "string"@, "The paper ID"@, true, seq![]), tool_param("content"@, "string"@, "Note content (markdown supported)"@, true, seq![])]),
        ("add_tag_to_paper"@, "Add a tag to a paper. Creates the tag if it doesn't exist."@, seq![tool_param("paper_id"@, "string"@, "The paper ID"@, true, seq![]), tool_param("tag_name"@, "string"@, "Tag name"@, true, seq![])]),
        ("add_paper_to_collection"@, "Add a paper to a collection."@, seq![tool_param("paper_id"@, "string"@, "The paper ID"@, true, seq![]), tool_param("collection_id"@, "string"@, "Collection ID"@, true, seq![])]),
        ("update_paper_status"@, "Update the read status of a paper."@, seq![tool_param("paper_id"@, "string"@, "The paper ID"@, true, seq![]), tool_param("read_status"@, "string"@, "New read status"@, true, seq!["unread"@, "reading"@, "read"@, "skipped"@])]),
    ]
}

/// The view of a parameter.
pub open spec fn param_view(p: ToolParam) -> (Seq<char>, Seq<char>, Seq<char>, bool, Seq<Seq<char>>) {
    (p.name@, p.kind@, p.description@, p.required, Seq::new(p.choices@.len(), |i: int| p.choices@[i]@))
}

/// The view of a tool definition.
pub open spec fn tool_view(t: ToolDefinition) -> (Seq<char>, Seq<char>, Seq<(Seq<char>, Seq<char>, Seq<char>, bool, Seq<Seq<char>>)>) {
    (t.name@, t.description@, Seq::new(t.params@.len(), |i: int| param_view(t.params@[i])))
}

fn param(name: &'static str, kind: &'static str, description: &'static str, required: bool) -> (r: ToolParam)
    ensures
        param_view(r) == tool_param(name@, kind@, description@, required, seq![]),
{
    let r = ToolParam { name, kind, description, required, choices: Vec::new() };
    assert(param_view(r).4 =~= Seq::<Seq<char>>::empty());
    r
}

fn tool(name: &'static str, description: &'static str, params: Vec<ToolParam>) -> (r: ToolDefinition)
    ensures
        r.name@ == name@,
        r.description@ == description@,
        r.params@ == params@,
{
    ToolDefinition { name, description, params }
}

/// The tools the chat offers to the model (see [`tool_table`]).
pub fn tool_definitions() -> (r: Vec<ToolDefinition>)
    ensures
        r@.len() == tool_table().len(),
        forall|i: int| 0 <= i < r@.len() ==> tool_view(#[trigger] r@[i]) == tool_table()[i],
{
    let mut r: Vec<ToolDefinition> = Vec::new();
    let mut ps: Vec<ToolParam> = Vec::new();
    ps.push(param("query", "string", "Search query", true));
    ps.push(param("limit", "integer", "Max results to return (default 10)", false));
    r.push(tool("search_papers", "Search the user's paper library using full-text search.", ps));
    let mut ps: Vec<ToolParam> = Vec::new();
    ps.push(param("paper_id", "string", "The paper ID", true));
    r.push(tool("get_paper", "Get full details of a specific paper by its ID.", ps));
    let mut ps: Vec<ToolParam> = Vec::new();
    ps.push(param("collection_id", "string", "Filter by collection ID", false));
    ps.push(param("tag_name", "string", "Filter by tag name", false));
    ps.push(param("read_status", "string", "Filter by status: unread, reading, read, skipped", false));
    ps.push(param("limit", "integer", "Max results (default 20)", false));
    r.push(tool("list_papers", "List papers in the library, optionally filtered by collection, tag, or read status.", ps));
    let mut ps: Vec<ToolParam> = Vec::new();
    r.push(tool("list_collections", "List all paper collections (folders) in the library.", ps));
    let mut ps: Vec<ToolParam> = Vec::new();
    r.push(tool("list_tags", "List all tags used in the library.", ps));
    let mut ps: Vec<ToolParam> = Vec::new();
    ps.push(param("paper_id", "string", "The paper ID", true));
    r.push(tool("list_notes", "List all notes for a specific paper.", ps));
    let mut ps: Vec<ToolParam> = Vec::new();
    ps.push(param("paper_id", "string", "The paper ID", true));
    r.push(tool("list_annotations", "List all annotations (highlights, underlines, notes) for a paper.", ps));
    let mut ps: Vec<ToolParam> = Vec::new();
    ps.push(param("paper_id", "string", "The paper ID", true));
    ps.push(param("content", "string", "Note content (markdown supported)", true));
    r.push(tool("add_note", "Add a note to a paper.", ps));
    let mut ps: Vec<ToolParam> = Vec::new();
    ps.push(param("paper_id", "string", "The paper ID", true));
    ps.push(param("tag_name", "string", "Tag name", true));
    r.push(tool("add_tag_to_paper", "Add a tag to a paper. Creates the tag if it doesn't exist.", ps));
    let mut ps: Vec<ToolParam> = Vec::new();
    ps.push(param("paper_id", "string", "The paper ID", true));
    ps.push(param("collection_id", "string", "Collection ID", true));
    r.push(tool("add_paper_to_collection", "Add a paper to a collection.", ps));
    let mut ps: Vec<ToolParam> = Vec::new();
    ps.push(param("paper_id", "string", "The paper ID", true));
    let mut choice: Vec<&'static str> = Vec::new();
    choice.push("unread");
    choice.push("reading");
    choice.push("read");
    choice.push("skipped");
    let mut p = param("read_status", "string", "New read status", true);
    p.choices = choice;
    assert(param_view(p).4 =~= seq!["unread"@, "reading"@, "read"@, "skipped"@]);
    ps.push(p);
    r.push(tool("update_paper_status", "Update the read status of a paper.", ps));
    assert forall|i: int| 0 <= i < r@.len() implies tool_view(#[trigger] r@[i]) == tool_table()[i] by {
        if i == 0 {
            assert(tool_view(r@[i]).2 =~= tool_table()[i].2);
        }
        if i == 1 {
            assert(tool_view(r@[i]).2 =~= tool_table()[i].2);
        }
        if i == 2 {
            assert(tool_view(r@[i]).2 =~= tool_table()[i].2);
        }
        if i == 3 {
            assert(tool_view(r@[i]).2 =~= tool_table()[i].2);
        }
        if i == 4 {
            assert(tool_view(r@[i]).2 =~= tool_table()[i].2);
        }
        if i == 5 {
            assert(tool_view(r@[i]).2 =~= tool_table()[i].2);
        }
        if i == 6 {
            assert(tool_view(r@[i]).2 =~= tool_table()[i].2);
        }
        if i == 7 {
            assert(tool_view(r@[i]).2 =~= tool_table()[i].2);
        }
        if i == 8 {
            assert(tool_view(r@[i]).2 =~= tool_table()[i].2);
        }
        if i == 9 {
            assert(tool_view(r@[i]).2 =~= tool_table()[i].2);
        }
        if i == 10 {
            assert(tool_view(r@[i]).2 =~= tool_table()[i].2);
        }
    }
    r
}

/// Of the tools offered, the first seven only read the library and the last four are
/// the write tools, which may need the user's confirmation.
pub proof fn lemma_write_tools_last(i: int)
    requires
        0 <= i < tool_table().len(),
    ensures
        write_tool(tool_table()[i].0) <==> i >= 7,
{
    reveal_strlit("search_papers");
    reveal_strlit("get_paper");
    reveal_strlit("list_papers");
    reveal_strlit("list_collections");
    reveal_strlit("list_tags");
    reveal_strlit("list_notes");
    reveal_strlit("list_annotations");
    reveal_strlit("add_note");
    reveal_strlit("add_tag_to_paper");
    reveal_strlit("add_paper_to_collection");
    reveal_strlit("update_paper_status");
    if i == 0 {
        assert(tool_table()[i].0 == "search_papers"@);
        assert("search_papers"@.len() != "add_note"@.len());
        assert("search_papers"@.len() != "add_tag_to_paper"@.len());
        assert("search_papers"@.len() != "add_paper_to_collection"@.len());
        assert("search_papers"@.len() != "update_paper_status"@.len());
    }
    if i == 1 {
        assert(tool_table()[i].0 == "get_paper"@);
        assert("get_paper"@.len() != "add_note"@.len());
        assert("get_paper"@.len() != "add_tag_to_paper"@.len());
        assert("get_paper"@.len() != "add_paper_to_collection"@.len());
        assert("get_paper"@.len() != "update_paper_status"@.len());
    }
    if i == 2 {
        assert(tool_table()[i].0 == "list_papers"@);
        assert("list_papers"@.len() != "add_note"@.len());
        assert("list_papers"@.len() != "add_tag_to_paper"@.len());
        assert("list_papers"@.len() != "add_paper_to_collection"@.len());
        assert("list_papers"@.len() != "update_paper_status"@.len());
    }
    if i == 3 {
        assert(tool_table()[i].0 == "list_collections"@);
        assert("list_collections"@.len() != "add_note"@.len());
        assert("list_collections"@[0] != "add_tag_to_paper"@[0]);
        assert("list_collections"@.len() != "add_paper_to_collection"@.len());
        assert("list_collections"@.len() != "update_paper_status"@.len());
    }
    if i == 4 {
        assert(tool_table()[i].0 == "list_tags"@);
        assert("list_tags"@.len() != "add_note"@.len());
        assert("list_tags"@.len() != "add_tag_to_paper"@.len());
        assert("list_tags"@.len() != "add_paper_to_collection"@.len());
        assert("list_tags"@.len() != "update_paper_status"@.len());
    }
    if i == 5 {
        assert(tool_table()[i].0 == "list_notes"@);
        assert("list_notes"@.len() != "add_note"@.len());
        assert("list_notes"@.len() != "add_tag_to_paper"@.len());
        assert("list_notes"@.len() != "add_paper_to_collection"@.len());
        assert("list_notes"@.len() != "update_paper_status"@.len());
    }
    if i == 6 {
        assert(tool_table()[i].0 == "list_annotations"@);
        assert("list_annotations"@.len() != "add_note"@.len());
        assert("list_annotations"@[0] != "add_tag_to_paper"@[0]);
        assert("list_annotations"@.len() != "add_paper_to_collection"@.len());
        assert("list_annotations"@.len() != "update_paper_status"@.len());
    }
    if i == 7 {
        assert(tool_table()[i].0 == "add_note"@);
    }
    if i == 8 {
        assert(tool_table()[i].0 == "add_tag_to_paper"@);
    }
    if i == 9 {
        assert(tool_table()[i].0 == "add_paper_to_collection"@);
    }
    if i == 10 {
        assert(tool_table()[i].0 == "update_paper_status"@);
    }
}

/// Whether the tool `name` changes the library.
pub fn is_write_tool(name: &str) -> (r: bool)
    ensures
        r == write_tool(name@),
{
    str_eq(name, "add_note") || str_eq(name, "add_tag_to_paper") || str_eq(
        name,
        "add_paper_to_collection",
    ) || str_eq(name, "update_paper_status")
}

/// Whether a tool call waits for the user: only a write tool, and only when the user
/// asked to confirm writes.
pub fn needs_confirmation(confirm_writes: bool, name: &str) -> (r: bool)
    ensures
        r == (confirm_writes && write_tool(name@)),
{
    confirm_writes && is_write_tool(name)
}

/// The chat settings as the chat panel shows them; the AI counts as configured when
/// both the default API key and base URL are set.
pub fn chat_get_config(chat: &ChatSettings, ai: &AiSettings) -> (r: ChatConfigResponse)
    ensures
        r.active_preset@ == chat.active_preset@,
        r.confirm_tool_calls == chat.confirm_tool_calls,
        r.ai_configured == (nonempty(ai.api_key@) && nonempty(ai.base_url@)),
        r.default_model@ == ai.model@,
        r.presets@.len() == chat.presets@.len(),
        forall|k: int|
            0 <= k < chat.presets@.len() ==> {
                &&& (#[trigger] r.presets@[k]).name@ == chat.presets@[k].name@
                &&& r.presets@[k].prompt@ == chat.presets@[k].prompt@
            },
        providers_offered(*ai, r.providers@),
{
    let mut presets: Vec<PresetResponse> = Vec::new();
    let mut k: usize = 0;
    while k < chat.presets.len()
        invariant
            k <= chat.presets@.len(),
            presets@.len() == k,
            forall|j: int|
                0 <= j < k ==> {
                    &&& (#[trigger] presets@[j]).name@ == chat.presets@[j].name@
                    &&& presets@[j].prompt@ == chat.presets@[j].prompt@
                },
        decreases chat.presets.len() - k,
    {
        let p = &chat.presets[k];
        presets.push(PresetResponse { name: p.name.clone(), prompt: p.prompt.clone() });
        k = k + 1;
    }
    ChatConfigResponse {
        active_preset: chat.active_preset.clone(),
        confirm_tool_calls: chat.confirm_tool_calls,
        ai_configured: !ai.api_key.as_str().is_empty() && !ai.base_url.as_str().is_empty(),
        default_model: ai.model.clone(),
        presets,
        providers: build_providers(ai),
    }
}

/// Applies an update to the chat settings: each given field replaces the old one, a
/// given preset list replaces the old list.
pub fn chat_update_config(chat: &mut ChatSettings, input: UpdateChatConfigInput)
    ensures
        final(chat).active_preset@ == match input.active_preset {
            Some(a) => a@,
            None => old(chat).active_preset@,
        },
        final(chat).confirm_tool_calls == match input.confirm_tool_calls {
            Some(c) => c,
            None => old(chat).confirm_tool_calls,
        },
        match input.presets {
            Some(ps) => {
                &&& final(chat).presets@.len() == ps@.len()
                &&& forall|k: int|
                    0 <= k < ps@.len() ==> {
                        &&& (#[trigger] final(chat).presets@[k]).name@ == ps@[k].name@
                        &&& final(chat).presets@[k].prompt@ == ps@[k].prompt@
                    }
            },
            None => final(chat).presets@ == old(chat).presets@,
        },
{
    if let Some(a) = input.active_preset {
        chat.active_preset = a;
    }
    if let Some(c) = input.confirm_tool_calls {
        chat.confirm_tool_calls = c;
    }
    if let Some(ps) = input.presets {
        let mut out: Vec<SystemPromptPreset> = Vec::new();
        let mut k: usize = 0;
        while k < ps.len()
            invariant
                k <= ps@.len(),
                out@.len() == k,
                forall|j: int|
                    0 <= j < k ==> {
                        &&& (#[trigger] out@[j]).name@ == ps@[j].name@
                        &&& out@[j].prompt@ == ps@[j].prompt@
                    },
            decreases ps.len() - k,
        {
            out.push(SystemPromptPreset { name: ps[k].name.clone(), prompt: ps[k].prompt.clone() });
            k = k + 1;
        }
        chat.presets = out;
    }
}

/// The system prompt of a chat about a paper: the chosen prompt, a blank line and the
/// paper's context; without a context the prompt alone.
pub fn with_paper_context(system_prompt: String, context: Option<String>) -> (r: String)
    ensures
        r@ == match context {
            Some(c) => system_prompt@ + "\n\n"@ + c@,
            None => system_prompt@,
        },
{
    match context {
        Some(c) => {
            let mut v = chars_of(system_prompt.as_str());
            push_str(&mut v, "\n\n");
            push_str(&mut v, c.as_str());
            string_from_chars(&v)
        },
        None => system_prompt,
    }
}

/// The content of a message sent to the model.
pub enum MessageContent {
    Text(String),
    Parts(Vec<ContentPart>),
}

/// A part of a message with images.
pub enum ContentPart {
    Text(String),
    ImageUrl(String),
}

/// A message sent to the model.
pub struct ApiMessage {
    pub role: String,
    pub content: MessageContent,
}

/// A message with plain text content, as `(role, text)`; other messages have no text view.
pub open spec fn text_message(m: ApiMessage) -> Option<(Seq<char>, Seq<char>)> {
    match m.content {
        MessageContent::Text(t) => Some((m.role@, t@)),
        MessageContent::Parts(_) => None,
    }
}

/// `pending` with the next assistant text appended, paragraphs separated by a blank line.
pub open spec fn joined(pending: Seq<char>, next: Seq<char>) -> Seq<char> {
    if pending.len() > 0 {
        pending + "\n\n"@ + next
    } else {
        next
    }
}

/// The assistant message that a non-empty pending text becomes.
pub open spec fn flushed(pending: Seq<char>) -> Seq<(Seq<char>, Seq<char>)> {
    if pending.len() > 0 {
        seq![("assistant"@, pending)]
    } else {
        Seq::empty()
    }
}

/// The history from message `i` on, as `(role, text)` pairs, with `pending` the text of the
/// assistant messages gathered so far: consecutive assistant messages become one, every
/// other message is sent as the user's.
pub open spec fn merged_from(msgs: Seq<ChatHistoryMessage>, i: int, pending: Seq<char>) -> Seq<
    (Seq<char>, Seq<char>),
>
    decreases msgs.len() - i,
{
    if i < 0 || i >= msgs.len() {
        flushed(pending)
    } else if msgs[i].role@ == "assistant"@ {
        merged_from(msgs, i + 1, joined(pending, msgs[i].content@))
    } else {
        flushed(pending) + seq![("user"@, msgs[i].content@)] + merged_from(
            msgs,
            i + 1,
            Seq::empty(),
        )
    }
}

/// The conversation history as it is sent to the model.
pub open spec fn merged_history(msgs: Seq<ChatHistoryMessage>) -> Seq<(Seq<char>, Seq<char>)> {
    merged_from(msgs, 0, Seq::empty())
}

/// The data URL under which an image is sent.
pub open spec fn image_url(img: ImageInput) -> Seq<char> {
    "data:"@ + img.mime_type@ + ";base64,"@ + img.base64_data@
}

/// The parts of a new user message with images: its text, then one data URL per image.
pub open spec fn user_parts(user_message: Seq<char>, images: Seq<ImageInput>, parts: Seq<ContentPart>) -> bool {
    &&& parts.len() == images.len() + 1
    &&& parts[0] matches ContentPart::Text(t) && t@ == user_message
    &&& forall|k: int|
        0 <= k < images.len() ==> (#[trigger] parts[k + 1] matches ContentPart::ImageUrl(u) && u@
            == image_url(images[k]))
}

/// The message list of a chat request: the system prompt, the merged history, and the new
/// user message (with its images as parts when there are any).
pub open spec fn chat_messages(
    system_prompt: Seq<char>,
    history: Seq<ChatHistoryMessage>,
    user_message: Seq<char>,
    images: Seq<ImageInput>,
    r: Seq<ApiMessage>,
) -> bool {
    let h = merged_history(history);
    &&& r.len() == h.len() + 2
    &&& text_message(r[0]) == Some(("system"@, system_prompt))
    &&& forall|k: int| 0 <= k < h.len() ==> text_message(#[trigger] r[k + 1]) == Some(h[k])
    &&& r.last().role@ == "user"@
    &&& if images.len() == 0 {
        r.last().content matches MessageContent::Text(t) && t@ == user_message
    } else {
        r.last().content matches MessageContent::Parts(parts) && user_parts(
            user_message,
            images,
            parts@,
        )
    }
}

/// Whether two neighbouring entries of `h` are both assistant messages.
pub open spec fn adjacent_assistants(h: Seq<(Seq<char>, Seq<char>)>) -> bool {
    exists|k: int| 0 <= k < h.len() - 1 && #[trigger] h[k].0 == "assistant"@ && h[k + 1].0 == "assistant"@
}

proof fn lemma_user_not_assistant()
    ensures
        "user"@ != "assistant"@,
{
    reveal_strlit("user");
    reveal_strlit("assistant");
    assert("user"@.len() != "assistant"@.len());
}

proof fn lemma_merged_from_no_adjacent(msgs: Seq<ChatHistoryMessage>, i: int, pending: Seq<char>)
    requires
        0 <= i <= msgs.len(),
    ensures
        !adjacent_assistants(merged_from(msgs, i, pending)),
    decreases msgs.len() - i,
{
    if i < msgs.len() {
        if msgs[i].role@ == "assistant"@ {
            lemma_merged_from_no_adjacent(msgs, i + 1, joined(pending, msgs[i].content@));
        } else {
            lemma_merged_from_no_adjacent(msgs, i + 1, Seq::empty());
            let rest = merged_from(msgs, i + 1, Seq::empty());
            let head = flushed(pending) + seq![("user"@, msgs[i].content@)];
            let whole = merged_from(msgs, i, pending);
            assert(whole == head + rest);
            if adjacent_assistants(whole) {
                let k = choose|k: int| 0 <= k < whole.len() - 1 && #[trigger] whole[k].0 == "assistant"@ && whole[k + 1].0 == "assistant"@;
                lemma_user_not_assistant();
                if k + 1 < head.len() {
                } else if k + 1 == head.len() {
                } else {
                    assert(rest[k - head.len()].0 == "assistant"@);
                    assert(rest[k - head.len() + 1].0 == "assistant"@);
                    assert(adjacent_assistants(rest));
                }
            }
        }
    }
}

/// No two neighbouring messages of the history sent to the model are both the
/// assistant's: a run of assistant messages is sent as one.
pub proof fn lemma_history_no_adjacent_assistants(msgs: Seq<ChatHistoryMessage>)
    ensures
        !adjacent_assistants(merged_history(msgs)),
{
    lemma_merged_from_no_adjacent(msgs, 0, Seq::empty());
}

/// The texts of the user messages of `h`, in order.
pub open spec fn user_texts(h: Seq<(Seq<char>, Seq<char>)>) -> Seq<Seq<char>>
    decreases h.len(),
{
    if h.len() == 0 {
        Seq::empty()
    } else if h[0].0 == "user"@ {
        seq![h[0].1] + user_texts(h.drop_first())
    } else {
        user_texts(h.drop_first())
    }
}

/// The contents of the messages of `msgs` from `i` on that are not the assistant's.
pub open spec fn non_assistant_contents(msgs: Seq<ChatHistoryMessage>, i: int) -> Seq<Seq<char>>
    decreases msgs.len() - i,
{
    if i < 0 || i >= msgs.len() {
        Seq::empty()
    } else if msgs[i].role@ == "assistant"@ {
        non_assistant_contents(msgs, i + 1)
    } else {
        seq![msgs[i].content@] + non_assistant_contents(msgs, i + 1)
    }
}

proof fn lemma_user_texts_concat(a: Seq<(Seq<char>, Seq<char>)>, b: Seq<(Seq<char>, Seq<char>)>)
    ensures
        user_texts(a + b) == user_texts(a) + user_texts(b),
    decreases a.len(),
{
    if a.len() == 0 {
        assert(a + b =~= b);
    } else {
        assert((a + b).drop_first() =~= a.drop_first() + b);
        lemma_user_texts_concat(a.drop_first(), b);
    }
}

proof fn lemma_flushed_has_no_user_text(pending: Seq<char>)
    ensures
        user_texts(flushed(pending)) == Seq::<Seq<char>>::empty(),
{
    lemma_user_not_assistant();
    let f = flushed(pending);
    assert(user_texts(Seq::<(Seq<char>, Seq<char>)>::empty()) == Seq::<Seq<char>>::empty());
    if pending.len() > 0 {
        assert(f.drop_first() =~= Seq::<(Seq<char>, Seq<char>)>::empty());
        assert(f[0].0 == "assistant"@);
    }
}

proof fn lemma_merged_from_user_texts(msgs: Seq<ChatHistoryMessage>, i: int, pending: Seq<char>)
    requires
        0 <= i <= msgs.len(),
    ensures
        user_texts(merged_from(msgs, i, pending)) == non_assistant_contents(msgs, i),
    decreases msgs.len() - i,
{
    lemma_user_not_assistant();
    lemma_flushed_has_no_user_text(pending);
    if i == msgs.len() {
    } else if msgs[i].role@ == "assistant"@ {
        lemma_merged_from_user_texts(msgs, i + 1, joined(pending, msgs[i].content@));
    } else {
        lemma_merged_from_user_texts(msgs, i + 1, Seq::empty());
        let f = flushed(pending);
        let u = seq![("user"@, msgs[i].content@)];
        let rest = merged_from(msgs, i + 1, Seq::empty());
        lemma_user_texts_concat(f, u);
        lemma_user_texts_concat(f + u, rest);
        assert(u.drop_first() =~= Seq::<(Seq<char>, Seq<char>)>::empty());
        assert(user_texts(Seq::<(Seq<char>, Seq<char>)>::empty()) == Seq::<Seq<char>>::empty());
        assert(u[0].0 == "user"@);
        assert(user_texts(u) =~= seq![msgs[i].content@]);
    }
}

/// Every message of the history that is not the assistant's reaches the model as a user
/// message with its text unchanged, in the original order, and no other user message is
/// sent.
pub proof fn lemma_history_keeps_user_messages(msgs: Seq<ChatHistoryMessage>)
    ensures
        user_texts(merged_history(msgs)) == non_assistant_contents(msgs, 0),
{
    lemma_merged_from_user_texts(msgs, 0, Seq::empty());
}

fn text_msg(role: &str, content: String) -> (r: ApiMessage)
    ensures
        text_message(r) == Some((role@, content@)),
{
    ApiMessage { role: role.to_owned(), content: MessageContent::Text(content) }
}

/// Builds the messages of a chat request (see [`chat_messages`]).
pub fn build_chat_messages(
    system_prompt: String,
    history: &Vec<ChatHistoryMessage>,
    user_message: String,
    images: &Vec<ImageInput>,
) -> (r: Vec<ApiMessage>)
    ensures
        chat_messages(system_prompt@, history@, user_message@, images@, r@),
{
    let ghost sp = system_prompt@;
    let mut out: Vec<ApiMessage> = Vec::new();
    out.push(text_msg("system", system_prompt));
    let mut pending: Vec<char> = Vec::new();
    let mut i: usize = 0;
    let ghost h = merged_history(history@);
    let ghost mut done: Seq<(Seq<char>, Seq<char>)> = Seq::empty();
    while i < history.len()
        invariant
            i <= history@.len(),
            h == merged_history(history@),
            h == done + merged_from(history@, i as int, pending@),
            out@.len() == done.len() + 1,
            text_message(out@[0]) == Some(("system"@, sp)),
            forall|k: int| 0 <= k < done.len() ==> text_message(#[trigger] out@[k + 1]) == Some(done[k]),
        decreases history.len() - i,
    {
        let m = &history[i];
        let ghost rest = merged_from(history@, i as int, pending@);
        if str_eq(m.role.as_str(), "assistant") {
            if pending.len() > 0 {
                push_str(&mut pending, "\n\n");
            }
            push_all(&mut pending, &chars_of(m.content.as_str()));
        } else {
            let ghost p0 = pending@;
            let ghost done0 = done;
            if pending.len() > 0 {
                out.push(text_msg("assistant", string_from_chars(&pending)));
                proof {
                    done = done.push(("assistant"@, pending@));
                }
                pending = Vec::new();
            }
            assert(pending@ =~= Seq::<char>::empty());
            out.push(text_msg("user", m.content.clone()));
            proof {
                done = done.push(("user"@, m.content@));
                assert(done =~= done0 + flushed(p0) + seq![("user"@, m.content@)]);
                assert(rest == flushed(p0) + seq![("user"@, m.content@)] + merged_from(
                    history@,
                    i + 1,
                    pending@,
                ));
                assert(h =~= done + merged_from(history@, i + 1, pending@));
            }
        }
        i = i + 1;
    }
    if pending.len() > 0 {
        out.push(text_msg("assistant", string_from_chars(&pending)));
        proof {
            done = done.push(("assistant"@, pending@));
        }
    }
    assert(done =~= h);
    if images.len() == 0 {
        out.push(text_msg("user", user_message));
    } else {
        let mut parts: Vec<ContentPart> = Vec::new();
        parts.push(ContentPart::Text(user_message));
        let mut k: usize = 0;
        while k < images.len()
            invariant
                k <= images@.len(),
                parts@.len() == k + 1,
                parts@[0] matches ContentPart::Text(t) && t@ == user_message@,
                forall|j: int|
                    0 <= j < k ==> (#[trigger] parts@[j + 1] matches ContentPart::ImageUrl(u) && u@
                        == image_url(images@[j])),
            decreases images.len() - k,
        {
            let img = &images[k];
            let mut url = chars_of("data:");
            push_str(&mut url, img.mime_type.as_str());
            push_str(&mut url, ";base64,");
            push_str(&mut url, img.base64_data.as_str());
            parts.push(ContentPart::ImageUrl(string_from_chars(&url)));
            k = k + 1;
        }
        assert(user_parts(user_message@, images@, parts@));
        out.push(ApiMessage { role: "user".to_owned(), content: MessageContent::Parts(parts) });
    }
    out
}

/// The string-valued arguments of a tool call, and its `limit` when that is an integer.
pub struct ToolArgs {
    pub strings: Vec<(String, String)>,
    pub limit: Option<i64>,
}

/// What a tool call asks of the library.
pub enum ToolAction {
    SearchPapers { query: String, limit: i64 },
    GetPaper { paper_id: String },
    ListPapers {
        in_collection: Option<String>,
        with_tag: Option<String>,
        with_status: Option<String>,
        limit: i64,
    },
    ListCollections,
    ListTags,
    ListNotes { paper_id: String },
    ListAnnotations { paper_id: String },
    AddNote { paper_id: String, content: String },
    AddTagToPaper { paper_id: String, tag_name: String },
    AddPaperToCollection { paper_id: String, collection_id: String },
    UpdatePaperStatus { paper_id: String, read_status: String },
}

/// The error for a tool call that lacks the argument `key`.
pub open spec fn missing_parameter(key: Seq<char>) -> Seq<char> {
    "Missing required parameter: "@ + key
}

/// `limit` or `default` when there is none.
pub open spec fn limit_or(limit: Option<i64>, default: i64) -> i64 {
    match limit {
        Some(l) => l,
        None => default,
    }
}

/// The tool calls that take one required argument `key` and nothing else.
pub open spec fn one_arg_tool(name: Seq<char>) -> Option<Seq<char>> {
    if name == "search_papers"@ {
        Some("query"@)
    } else if name == "get_paper"@ || name == "list_notes"@ || name == "list_annotations"@ {
        Some("paper_id"@)
    } else {
        None
    }
}

/// The tool calls that take the required arguments `paper_id` and a second one.
pub open spec fn two_arg_tool(name: Seq<char>) -> Option<Seq<char>> {
    if name == "add_note"@ {
        Some("content"@)
    } else if name == "add_tag_to_paper"@ {
        Some("tag_name"@)
    } else if name == "add_paper_to_collection"@ {
        Some("collection_id"@)
    } else if name == "update_paper_status"@ {
        Some("read_status"@)
    } else {
        None
    }
}

/// The action that a call of the one-argument tool `name` with argument `v` asks for.
pub open spec fn one_arg_action(name: Seq<char>, v: Seq<char>, limit: Option<i64>, a: ToolAction) -> bool {
    if name == "search_papers"@ {
        a matches ToolAction::SearchPapers { query, limit: l } && query@ == v && l == limit_or(limit, 10)
    } else if name == "get_paper"@ {
        a matches ToolAction::GetPaper { paper_id } && paper_id@ == v
    } else if name == "list_notes"@ {
        a matches ToolAction::ListNotes { paper_id } && paper_id@ == v
    } else {
        a matches ToolAction::ListAnnotations { paper_id } && paper_id@ == v
    }
}

/// The action that a call of the two-argument tool `name` asks for.
pub open spec fn two_arg_action(name: Seq<char>, p: Seq<char>, v: Seq<char>, a: ToolAction) -> bool {
    if name == "add_note"@ {
        a matches ToolAction::AddNote { paper_id, content } && paper_id@ == p && content@ == v
    } else if name == "add_tag_to_paper"@ {
        a matches ToolAction::AddTagToPaper { paper_id, tag_name } && paper_id@ == p && tag_name@ == v
    } else if name == "add_paper_to_collection"@ {
        a matches ToolAction::AddPaperToCollection { paper_id, collection_id } && paper_id@ == p
            && collection_id@ == v
    } else {
        a matches ToolAction::UpdatePaperStatus { paper_id, read_status } && paper_id@ == p
            && read_status@ == v
    }
}

/// How the chat decodes a call of tool `name` with arguments `args` (string values) and
/// `limit`: a known tool with its required arguments gives its action, a missing
/// required argument (the first one, in the order the tool lists them) or an unknown
/// tool gives an error.
pub open spec fn decoded_tool_call(
    name: Seq<char>,
    args: Seq<(String, String)>,
    limit: Option<i64>,
    r: Result<ToolAction, String>,
) -> bool {
    if one_arg_tool(name) is Some {
        let key = one_arg_tool(name)->0;
        match field_value(args, key) {
            None => r matches Err(e) && e@ == missing_parameter(key),
            Some(v) => r matches Ok(a) && one_arg_action(name, v, limit, a),
        }
    } else if two_arg_tool(name) is Some {
        let key = two_arg_tool(name)->0;
        match (field_value(args, "paper_id"@), field_value(args, key)) {
            (None, _) => r matches Err(e) && e@ == missing_parameter("paper_id"@),
            (Some(_), None) => r matches Err(e) && e@ == missing_parameter(key),
            (Some(p), Some(v)) => r matches Ok(a) && two_arg_action(name, p, v, a),
        }
    } else if name == "list_papers"@ {
        r matches Ok(ToolAction::ListPapers { in_collection, with_tag, with_status, limit: l }) && {
            &&& opt_view(in_collection) == field_value(args, "collection_id"@)
            &&& opt_view(with_tag) == field_value(args, "tag_name"@)
            &&& opt_view(with_status) == field_value(args, "read_status"@)
            &&& l == limit_or(limit, 20)
        }
    } else if name == "list_collections"@ {
        r matches Ok(ToolAction::ListCollections)
    } else if name == "list_tags"@ {
        r matches Ok(ToolAction::ListTags)
    } else {
        r matches Err(e) && e@ == "Unknown tool: "@ + name
    }
}

fn missing(key: &str) -> (r: String)
    ensures
        r@ == missing_parameter(key@),
{
    concat("Missing required parameter: ", key)
}

fn limit_or_default(limit: Option<i64>, default: i64) -> (r: i64)
    ensures
        r == limit_or(limit, default),
{
    match limit {
        Some(l) => l,
        None => default,
    }
}

/// Decodes a tool call of the chat (see [`decoded_tool_call`]).
pub fn decode_tool_call(name: &str, args: &ToolArgs) -> (r: Result<ToolAction, String>)
    ensures
        decoded_tool_call(name@, args.strings@, args.limit, r),
{
    let a = &args.strings;
    if str_eq(name, "search_papers") {
        match get_field(a, "query") {
            None => Err(missing("query")),
            Some(q) => Ok(ToolAction::SearchPapers { query: q, limit: limit_or_default(args.limit, 10) }),
        }
    } else if str_eq(name, "get_paper") || str_eq(name, "list_notes") || str_eq(name, "list_annotations") {
        match get_field(a, "paper_id") {
            None => Err(missing("paper_id")),
            Some(p) => if str_eq(name, "get_paper") {
                Ok(ToolAction::GetPaper { paper_id: p })
            } else if str_eq(name, "list_notes") {
                Ok(ToolAction::ListNotes { paper_id: p })
            } else {
                Ok(ToolAction::ListAnnotations { paper_id: p })
            },
        }
    } else if str_eq(name, "add_note") || str_eq(name, "add_tag_to_paper") || str_eq(
        name,
        "add_paper_to_collection",
    ) || str_eq(name, "update_paper_status") {
        let key = if str_eq(name, "add_note") {
            "content"
        } else if str_eq(name, "add_tag_to_paper") {
            "tag_name"
        } else if str_eq(name, "add_paper_to_collection") {
            "collection_id"
        } else {
            "read_status"
        };
        let p = match get_field(a, "paper_id") {
            None => {
                return Err(missing("paper_id"));
            },
            Some(p) => p,
        };
        let v = match get_field(a, key) {
            None => {
                return Err(missing(key));
            },
            Some(v) => v,
        };
        if str_eq(name, "add_note") {
            Ok(ToolAction::AddNote { paper_id: p, content: v })
        } else if str_eq(name, "add_tag_to_paper") {
            Ok(ToolAction::AddTagToPaper { paper_id: p, tag_name: v })
        } else if str_eq(name, "add_paper_to_collection") {
            Ok(ToolAction::AddPaperToCollection { paper_id: p, collection_id: v })
        } else {
            Ok(ToolAction::UpdatePaperStatus { paper_id: p, read_status: v })
        }
    } else if str_eq(name, "list_papers") {
        Ok(
            ToolAction::ListPapers {
                in_collection: get_field(a, "collection_id"),
                with_tag: get_field(a, "tag_name"),
                with_status: get_field(a, "read_status"),
                limit: limit_or_default(args.limit, 20),
            },
        )
    } else if str_eq(name, "list_collections") {
        Ok(ToolAction::ListCollections)
    } else if str_eq(name, "list_tags") {
        Ok(ToolAction::ListTags)
    } else {
        Err(concat("Unknown tool: ", name))
    }
}

/// The start of the error text when the library refuses a tool's action.
pub open spec fn failure_prefix(a: ToolAction) -> Seq<char> {
    match a {
        ToolAction::SearchPapers { .. } => "Search failed: "@,
        ToolAction::GetPaper { .. } => "Paper not found: "@,
        ToolAction::ListPapers { .. } => "List papers failed: "@,
        ToolAction::ListCollections => "List collections failed: "@,
        ToolAction::ListTags => "List tags failed: "@,
        ToolAction::ListNotes { .. } => "List notes failed: "@,
        ToolAction::ListAnnotations { .. } => "List annotations failed: "@,
        ToolAction::AddNote { .. } => "Add note failed: "@,
        ToolAction::AddTagToPaper { .. } => "Add tag failed: "@,
        ToolAction::AddPaperToCollection { .. } => "Add to collection failed: "@,
        ToolAction::UpdatePaperStatus { .. } => "Update status failed: "@,
    }
}

/// The tool result when the library refuses the action `a` with the error `err`.
pub fn tool_failure(a: &ToolAction, err: &str) -> (r: String)
    ensures
        r@ == failure_prefix(*a) + err@,
{
    let prefix = match a {
        ToolAction::SearchPapers { .. } => "Search failed: ",
        ToolAction::GetPaper { .. } => "Paper not found: ",
        ToolAction::ListPapers { .. } => "List papers failed: ",
        ToolAction::ListCollections => "List collections failed: ",
        ToolAction::ListTags => "List tags failed: ",
        ToolAction::ListNotes { .. } => "List notes failed: ",
        ToolAction::ListAnnotations { .. } => "List annotations failed: ",
        ToolAction::AddNote { .. } => "Add note failed: ",
        ToolAction::AddTagToPaper { .. } => "Add tag failed: ",
        ToolAction::AddPaperToCollection { .. } => "Add to collection failed: ",
        ToolAction::UpdatePaperStatus { .. } => "Update status failed: ",
    };
    concat(prefix, err)
}

/// The confirmation a write tool reports once the library has done it; `note_id` is the
/// id of the note that `add_note` created. Reading tools report their data instead.
pub open spec fn write_success(a: ToolAction, note_id: Seq<char>) -> Option<Seq<char>> {
    match a {
        ToolAction::AddNote { .. } => Some("Note added successfully (ID: "@ + note_id + ")"@),
        ToolAction::AddTagToPaper { tag_name, .. } => Some("Tag '"@ + tag_name@ + "' added to paper"@),
        ToolAction::AddPaperToCollection { .. } => Some("Paper added to collection"@),
        ToolAction::UpdatePaperStatus { read_status, .. } => Some(
            "Paper status updated to '"@ + read_status@ + "'"@,
        ),
        _ => None,
    }
}

/// The result text of a write tool that succeeded (see [`write_success`]).
pub fn write_tool_success(a: &ToolAction, note_id: &str) -> (r: Option<String>)
    ensures
        opt_view(r) == write_success(*a, note_id@),
{
    match a {
        ToolAction::AddNote { .. } => {
            let mut v = chars_of("Note added successfully (ID: ");
            push_str(&mut v, note_id);
            push_str(&mut v, ")");
            Some(string_from_chars(&v))
        },
        ToolAction::AddTagToPaper { tag_name, .. } => {
            let mut v = chars_of("Tag '");
            push_str(&mut v, tag_name.as_str());
            push_str(&mut v, "' added to paper");
            Some(string_from_chars(&v))
        },
        ToolAction::AddPaperToCollection { .. } => Some("Paper added to collection".to_owned()),
        ToolAction::UpdatePaperStatus { read_status, .. } => {
            let mut v = chars_of("Paper status updated to '");
            push_str(&mut v, read_status.as_str());
            push_str(&mut v, "'");
            Some(string_from_chars(&v))
        },
        _ => None,
    }
}

/// What becomes of a tool call that waited for the user.
pub enum Confirmation {
    /// The user approved: the tool runs.
    Run,
    /// The tool does not run; the result text and whether it counts as an error.
    Skip(String, bool),
}

/// The outcome of a confirmation request: approval runs the tool, refusal reports it to
/// the model as an ordinary result, a closed request (`None`) as an error.
pub fn confirmation_outcome(answer: Option<bool>) -> (r: Confirmation)
    ensures
        answer == Some(true) <==> r is Run,
        answer == Some(false) ==> (r matches Confirmation::Skip(t, e) && t@
            == "Tool call was rejected by the user."@ && !e),
        answer is None ==> (r matches Confirmation::Skip(t, e) && t@ == "Tool confirmation cancelled."@
            && e),
{
    match answer {
        Some(true) => Confirmation::Run,
        Some(false) => Confirmation::Skip("Tool call was rejected by the user.".to_owned(), false),
        None => Confirmation::Skip("Tool confirmation cancelled.".to_owned(), true),
    }
}

/// Whether a provider's API error says that it does not support choosing tools.
pub open spec fn tool_choice_refused(message: Option<Seq<char>>) -> bool {
    match message {
        Some(m) => contains_seq(m, "tool choice"@) || contains_seq(m, "tool_choice"@),
        None => false,
    }
}

/// Whether an error of the model's API (its message, for an API error) says that the
/// provider does not support tool calling.
pub fn is_tool_choice_error(api_message: Option<&str>) -> (r: bool)
    ensures
        r == tool_choice_refused(
            match api_message {
                Some(m) => Some(m@),
                None => None,
            },
        ),
{
    match api_message {
        Some(m) => str_contains(m, "tool choice") || str_contains(m, "tool_choice"),
        None => false,
    }
}

/// The most rounds of model requests one chat message may take.
pub const MAX_TOOL_LOOPS: usize = 15;

/// The state of the loop that answers one chat message: how many rounds of requests it
/// has made and whether tools are still offered to the model.
pub struct ChatLoop {
    pub rounds: usize,
    pub tools_enabled: bool,
}

impl ChatLoop {
    /// A loop that has made no request and offers tools.
    pub fn new() -> (r: ChatLoop)
        ensures
            r.rounds == 0,
            r.tools_enabled,
    {
        ChatLoop { rounds: 0, tools_enabled: true }
    }

    /// Starts the next round, unless the loop has used all of its rounds (then the chat
    /// stops with the reason `max_tool_loops`).
    pub fn begin_round(&mut self) -> (started: bool)
        requires
            old(self).rounds <= MAX_TOOL_LOOPS,
        ensures
            started == (old(self).rounds < MAX_TOOL_LOOPS),
            final(self).rounds == if started { old(self).rounds + 1 } else { old(self).rounds as int },
            final(self).tools_enabled == old(self).tools_enabled,
            final(self).rounds <= MAX_TOOL_LOOPS,
            (*final(self), started) == round_step(*old(self)),
    {
        if self.rounds < MAX_TOOL_LOOPS {
            self.rounds = self.rounds + 1;
            true
        } else {
            false
        }
    }

    /// Handles a failed request: when tools were offered and the provider refused tool
    /// choice, tools are switched off for good and the request is repeated without them
    /// (`true`); any other failure ends the chat (`false`).
    pub fn retry_without_tools(&mut self, tool_choice_error: bool) -> (retry: bool)
        ensures
            retry == (old(self).tools_enabled && tool_choice_error),
            final(self).tools_enabled == (old(self).tools_enabled && !retry),
            final(self).rounds == old(self).rounds,
            (*final(self), retry) == retry_step(*old(self), tool_choice_error),
    {
        if self.tools_enabled && tool_choice_error {
            self.tools_enabled = false;
            true
        } else {
            false
        }
    }
}

/// What [`ChatLoop::begin_round`] does: the loop after it, and whether a round (one
/// model request) started.
pub open spec fn round_step(l: ChatLoop) -> (ChatLoop, bool) {
    if l.rounds < MAX_TOOL_LOOPS {
        (ChatLoop { rounds: (l.rounds + 1) as usize, tools_enabled: l.tools_enabled }, true)
    } else {
        (l, false)
    }
}

/// What [`ChatLoop::retry_without_tools`] does after a failed request: the loop after
/// it, and whether the request is repeated.
pub open spec fn retry_step(l: ChatLoop, tool_choice_error: bool) -> (ChatLoop, bool) {
    if l.tools_enabled && tool_choice_error {
        (ChatLoop { rounds: l.rounds, tools_enabled: false }, true)
    } else {
        (l, false)
    }
}

/// The model requests a loop makes from state `l` through `events`, each either the
/// start of a round (`(true, _)`) or a failed request with whether the provider refused
/// tool choice (`(false, refused)`).
pub open spec fn requests_made(l: ChatLoop, events: Seq<(bool, bool)>) -> int
    decreases events.len(),
{
    if events.len() == 0 {
        0
    } else {
        let (next, requested) = if events[0].0 {
            round_step(l)
        } else {
            retry_step(l, events[0].1)
        };
        (if requested {
            1int
        } else {
            0
        }) + requests_made(next, events.drop_first())
    }
}

/// From any state, a loop makes at most one request for each round it has left, and one
/// more while tools are still offered.
pub proof fn lemma_requests_bounded(l: ChatLoop, events: Seq<(bool, bool)>)
    requires
        l.rounds <= MAX_TOOL_LOOPS,
    ensures
        requests_made(l, events) <= (MAX_TOOL_LOOPS - l.rounds) + if l.tools_enabled {
            1int
        } else {
            0
        },
    decreases events.len(),
{
    if events.len() > 0 {
        let (next, requested) = if events[0].0 {
            round_step(l)
        } else {
            retry_step(l, events[0].1)
        };
        lemma_requests_bounded(next, events.drop_first());
    }
}

/// However its rounds and failures go, answering one chat message makes at most
/// `MAX_TOOL_LOOPS + 1` model requests: one per round, and one repeat without tools.
pub proof fn lemma_chat_requests_bounded(events: Seq<(bool, bool)>)
    ensures
        requests_made(ChatLoop { rounds: 0, tools_enabled: true }, events) <= MAX_TOOL_LOOPS + 1,
{
    lemma_requests_bounded(ChatLoop { rounds: 0, tools_enabled: true }, events);
}

/// The reason a chat stops when it has used all of its rounds.
pub fn max_rounds_reason() -> (r: String)
    ensures
        r@ == "max_tool_loops"@,
{
    "max_tool_loops".to_owned()
}


/// Whether `args` holds what the JSON text `text` gives: its `limit` integer, and each
/// text argument that a tool reads (see [`decoded_tool_call`]).
pub open spec fn args_from_json(text: Seq<char>, args: ToolArgs) -> bool {
    &&& args.limit == json_int_field(text, "limit"@)
    &&& field_value(args.strings@, "query"@) == json_text_field(text, "query"@)
    &&& field_value(args.strings@, "paper_id"@) == json_text_field(text, "paper_id"@)
    &&& field_value(args.strings@, "collection_id"@) == json_text_field(text, "collection_id"@)
    &&& field_value(args.strings@, "tag_name"@) == json_text_field(text, "tag_name"@)
    &&& field_value(args.strings@, "read_status"@) == json_text_field(text, "read_status"@)
    &&& field_value(args.strings@, "content"@) == json_text_field(text, "content"@)
}

fn push_json_arg(out: &mut Vec<(String, String)>, text: &str, key: &str)
    ensures
        forall|k: Seq<char>| #[trigger] field_value(final(out)@, k) == if k == key@ && json_text_field(text@, key@) is Some {
            json_text_field(text@, key@)
        } else {
            field_value(old(out)@, k)
        },
{
    if let Some(v) = json_text_field_of(text, key) {
        out.push((key.to_owned(), v));
        assert forall|k: Seq<char>| #[trigger] field_value(out@, k) == if k == key@ && json_text_field(text@, key@) is Some {
            json_text_field(text@, key@)
        } else {
            field_value(old(out)@, k)
        } by {
            assert(out@.drop_last() =~= old(out)@);
        }
    }
}

/// Decodes a tool call whose arguments come as JSON text, as the model sends them: text
/// that is not JSON gives `Invalid arguments: …` with serde_json's message; otherwise the
/// call is decoded from the arguments the text holds (see [`decoded_tool_call`]).
pub fn tool_call_from_json(name: &str, arguments: &str) -> (r: Result<ToolAction, String>)
    ensures
        match json_parse_error(arguments@) {
            Some(e) => r matches Err(m) && m@ == "Invalid arguments: "@ + e,
            None => exists|args: ToolArgs|
                #[trigger] args_from_json(arguments@, args) && decoded_tool_call(name@, args.strings@, args.limit, r),
        },
{
    if let Some(e) = json_error_of(arguments) {
        return Err(concat("Invalid arguments: ", e.as_str()));
    }
    let mut strings: Vec<(String, String)> = Vec::new();
    proof {
        reveal_strlit("query");
        reveal_strlit("paper_id");
        reveal_strlit("collection_id");
        reveal_strlit("tag_name");
        reveal_strlit("read_status");
        reveal_strlit("content");
    }
    push_json_arg(&mut strings, arguments, "query");
    push_json_arg(&mut strings, arguments, "paper_id");
    push_json_arg(&mut strings, arguments, "collection_id");
    push_json_arg(&mut strings, arguments, "tag_name");
    push_json_arg(&mut strings, arguments, "read_status");
    push_json_arg(&mut strings, arguments, "content");
    let args = ToolArgs { strings, limit: json_int_field_of(arguments, "limit") };
    let r = decode_tool_call(name, &args);
    assert(field_value(Seq::<(String, String)>::empty(), "query"@) is None);
    assert(args_from_json(arguments@, args));
    r
}


/// The tools that [`decode_tool_call`] knows: the one- and two-argument tools, and the
/// listing tools.
pub open spec fn known_tool(name: Seq<char>) -> bool {
    ||| one_arg_tool(name) is Some
    ||| two_arg_tool(name) is Some
    ||| name == "list_papers"@
    ||| name == "list_collections"@
    ||| name == "list_tags"@
}

/// The tools offered to the model are exactly the tools the chat decodes, each offered
/// once; a call of any other name is answered `Unknown tool: …` and nothing else.
pub proof fn lemma_offered_tools_decoded(name: Seq<char>, args: Seq<(String, String)>, limit: Option<i64>, r: Result<ToolAction, String>)
    ensures
        known_tool(name) <==> exists|i: int| 0 <= i < tool_table().len() && #[trigger] tool_table()[i].0 == name,
        forall|i: int, j: int| 0 <= i < j < tool_table().len() ==> tool_table()[i].0 != tool_table()[j].0,
        !known_tool(name) ==> (decoded_tool_call(name, args, limit, r) <==> (r matches Err(e) && e@ == "Unknown tool: "@ + name)),
        known_tool(name) && decoded_tool_call(name, args, limit, r) ==> (r is Ok || exists|key: Seq<char>| r matches Err(e) && e@ == #[trigger] missing_parameter(key)),
{
    reveal_strlit("search_papers");
    reveal_strlit("get_paper");
    reveal_strlit("list_papers");
    reveal_strlit("list_collections");
    reveal_strlit("list_tags");
    reveal_strlit("list_notes");
    reveal_strlit("list_annotations");
    reveal_strlit("add_note");
    reveal_strlit("add_tag_to_paper");
    reveal_strlit("add_paper_to_collection");
    reveal_strlit("update_paper_status");
    let t = tool_table();
    if known_tool(name) {
        if name == "search_papers"@ { assert(t[0].0 == name); }
        else if name == "get_paper"@ { assert(t[1].0 == name); }
        else if name == "list_papers"@ { assert(t[2].0 == name); }
        else if name == "list_collections"@ { assert(t[3].0 == name); }
        else if name == "list_tags"@ { assert(t[4].0 == name); }
        else if name == "list_notes"@ { assert(t[5].0 == name); }
        else if name == "list_annotations"@ { assert(t[6].0 == name); }
        else if name == "add_note"@ { assert(t[7].0 == name); }
        else if name == "add_tag_to_paper"@ { assert(t[8].0 == name); }
        else if name == "add_paper_to_collection"@ { assert(t[9].0 == name); }
        else { assert(t[10].0 == name); }
    }
    assert forall|i: int, j: int| 0 <= i < j < t.len() implies t[i].0 != t[j].0 by {
        if i == 0 && j == 1 { assert(t[i].0.len() != t[j].0.len()); }
        if i == 0 && j == 2 { assert(t[i].0.len() != t[j].0.len()); }
        if i == 0 && j == 3 { assert(t[i].0.len() != t[j].0.len()); }
        if i == 0 && j == 4 { assert(t[i].0.len() != t[j].0.len()); }
        if i == 0 && j == 5 { assert(t[i].0.len() != t[j].0.len()); }
        if i == 0 && j == 6 { assert(t[i].0.len() != t[j].0.len()); }
        if i == 0 && j == 7 { assert(t[i].0.len() != t[j].0.len()); }
        if i == 0 && j == 8 { assert(t[i].0.len() != t[j].0.len()); }
        if i == 0 && j == 9 { assert(t[i].0.len() != t[j].0.len()); }
        if i == 0 && j == 10 { assert(t[i].0.len() != t[j].0.len()); }
        if i == 1 && j == 2 { assert(t[i].0.len() != t[j].0.len()); }
        if i == 1 && j == 3 { assert(t[i].0.len() != t[j].0.len()); }
        if i == 1 && j == 4 { assert(t[i].0[0] != t[j].0[0]); }
        if i == 1 && j == 5 { assert(t[i].0.len() != t[j].0.len()); }
        if i == 1 && j == 6 { assert(t[i].0.len() != t[j].0.len()); }
        if i == 1 && j == 7 { assert(t[i].0.len() != t[j].0.len()); }
        if i == 1 && j == 8 { assert(t[i].0.len() != t[j].0.len()); }
        if i == 1 && j == 9 { assert(t[i].0.len() != t[j].0.len()); }
        if i == 1 && j == 10 { assert(t[i].0.len() != t[j].0.len()); }
        if i == 2 && j == 3 { assert(t[i].0.len() != t[j].0.len()); }
        if i == 2 && j == 4 { assert(t[i].0.len() != t[j].0.len()); }
        if i == 2 && j == 5 { assert(t[i].0.len() != t[j].0.len()); }
        if i == 2 && j == 6 { assert(t[i].0.len() != t[j].0.len()); }
        if i == 2 && j == 7 { assert(t[i].0.len() != t[j].0.len()); }
        if i == 2 && j == 8 { assert(t[i].0.len() != t[j].0.len()); }
        if i == 2 && j == 9 { assert(t[i].0.len() != t[j].0.len()); }
        if i == 2 && j == 10 { assert(t[i].0.len() != t[j].0.len()); }
        if i == 3 && j == 4 { assert(t[i].0.len() != t[j].0.len()); }
        if i == 3 && j == 5 { assert(t[i].0.len() != t[j].0.len()); }
        if i == 3 && j == 6 { assert(t[i].0[5] != t[j].0[5]); }
        if i == 3 && j == 7 { assert(t[i].0.len() != t[j].0.len()); }
        if i == 3 && j == 8 { assert(t[i].0[0] != t[j].0[0]); }
        if i == 3 && j == 9 { assert(t[i].0.len() != t[j].0.len()); }
        if i == 3 && j == 10 { assert(t[i].0.len() != t[j].0.len()); }
        if i == 4 && j == 5 { assert(t[i].0.len() != t[j].0.len()); }
        if i == 4 && j == 6 { assert(t[i].0.len() != t[j].0.len()); }
        if i == 4 && j == 7 { assert(t[i].0.len() != t[j].0.len()); }
        if i == 4 && j == 8 { assert(t[i].0.len() != t[j].0.len()); }
        if i == 4 && j == 9 { assert(t[i].0.len() != t[j].0.len()); }
        if i == 4 && j == 10 { assert(t[i].0.len() != t[j].0.len()); }
        if i == 5 && j == 6 { assert(t[i].0.len() != t[j].0.len()); }
        if i == 5 && j == 7 { assert(t[i].0.len() != t[j].0.len()); }
        if i == 5 && j == 8 { assert(t[i].0.len() != t[j].0.len()); }
        if i == 5 && j == 9 { assert(t[i].0.len() != t[j].0.len()); }
        if i == 5 && j == 10 { assert(t[i].0.len() != t[j].0.len()); }
        if i == 6 && j == 7 { assert(t[i].0.len() != t[j].0.len()); }
        if i == 6 && j == 8 { assert(t[i].0[0] != t[j].0[0]); }
        if i == 6 && j == 9 { assert(t[i].0.len() != t[j].0.len()); }
        if i == 6 && j == 10 { assert(t[i].0.len() != t[j].0.len()); }
        if i == 7 && j == 8 { assert(t[i].0.len() != t[j].0.len()); }
        if i == 7 && j == 9 { assert(t[i].0.len() != t[j].0.len()); }
        if i == 7 && j == 10 { assert(t[i].0.len() != t[j].0.len()); }
        if i == 8 && j == 9 { assert(t[i].0.len() != t[j].0.len()); }
        if i == 8 && j == 10 { assert(t[i].0.len() != t[j].0.len()); }
        if i == 9 && j == 10 { assert(t[i].0.len() != t[j].0.len()); }
    }
}

} // verus!
