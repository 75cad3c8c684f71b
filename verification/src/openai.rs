//! The OpenAI chat-completions wire format: requests and the prompts made of
//! them, completions, streamed chunks, the model list, and errors.

use vstd::prelude::*;

use crate::json::{law_quoted_is_one_line, quote, quoted, Json};
use crate::names::NameMap;
use crate::text::{
    chars_of, decimal, decimal_text, find_text_from, join_texts, joined, lemma_decimal_digits,
    lemma_find_text_from_is, occurs_at, opt_view, same, text_range, views,
};

verus! {

// ---------------------------------------------------------------------------
// Requests
// ---------------------------------------------------------------------------

/// A chat request. `extra` holds every member that has no field of its own.
pub struct ChatRequest {
    pub model: String,
    pub messages: Vec<ChatMessage>,
    pub stream: bool,
    pub extra: NameMap<Json>,
}

/// One message of a chat.
pub struct ChatMessage {
    pub role: String,
    pub content: MessageContent,
    pub name: Option<String>,
}

/// What a message holds: a text, or a list of parts.
pub enum MessageContent {
    Text(String),
    Parts(Vec<ContentPart>),
}

/// A part of a message; parts other than text are not looked into.
pub enum ContentPart {
    Text { text: String },
    Other,
}

/// The texts among the parts of a message.
pub open spec fn part_texts(parts: Seq<ContentPart>) -> Seq<Seq<char>>
    decreases parts.len(),
{
    if parts.len() == 0 {
        Seq::empty()
    } else {
        let front = part_texts(parts.drop_last());
        match parts.last() {
            ContentPart::Text { text } => front.push(text@),
            ContentPart::Other => front,
        }
    }
}

/// The text of a message: its text parts, one on a line.
pub open spec fn content_text(c: MessageContent) -> Seq<char> {
    match c {
        MessageContent::Text(s) => s@,
        MessageContent::Parts(ps) => joined(part_texts(ps@), "\n"@),
    }
}

/// The text of a message.
pub fn content_to_text(c: &MessageContent) -> (r: String)
    ensures
        r@ == content_text(*c),
{
    match c {
        MessageContent::Text(s) => s.clone(),
        MessageContent::Parts(ps) => {
            let mut texts: Vec<String> = Vec::new();
            let mut i: usize = 0;
            proof {
                assert(views(texts@) =~= part_texts(ps@.take(0)));
            }
            while i < ps.len()
                invariant
                    i <= ps@.len(),
                    views(texts@) == part_texts(ps@.take(i as int)),
                decreases ps@.len() - i,
            {
                proof {
                    assert(ps@.take(i + 1).drop_last() =~= ps@.take(i as int));
                }
                if let ContentPart::Text { text } = &ps[i] {
                    let ghost before = texts@;
                    texts.push(text.clone());
                    proof {
                        assert(views(texts@) =~= views(before).push(text@));
                    }
                }
                i = i + 1;
            }
            proof {
                assert(ps@.take(i as int) =~= ps@);
            }
            join_texts(&texts, "\n")
        },
    }
}

/// Whether a message has parts that are not text.
pub open spec fn drops_parts(c: MessageContent) -> bool {
    match c {
        MessageContent::Text(_) => false,
        MessageContent::Parts(ps) => exists|i: int| 0 <= i < ps@.len() && #[trigger] ps@[i] is Other,
    }
}

/// Whether any message has parts that are not text, which go unread.
pub fn has_dropped_parts(messages: &[ChatMessage]) -> (r: bool)
    ensures
        r == exists|i: int|
            0 <= i < messages@.len() && drops_parts((#[trigger] messages@[i]).content),
{
    let mut i: usize = 0;
    while i < messages.len()
        invariant
            i <= messages@.len(),
            forall|k: int| 0 <= k < i ==> !drops_parts((#[trigger] messages@[k]).content),
        decreases messages@.len() - i,
    {
        if let MessageContent::Parts(ps) = &messages[i].content {
            let mut j: usize = 0;
            while j < ps.len()
                invariant
                    i < messages@.len(),
                    messages@[i as int].content == MessageContent::Parts(*ps),
                    j <= ps@.len(),
                    forall|k: int| 0 <= k < j ==> !(#[trigger] ps@[k] is Other),
                decreases ps@.len() - j,
            {
                if let ContentPart::Other = &ps[j] {
                    proof {
                        assert(ps@[j as int] is Other);
                        assert(drops_parts(messages@[i as int].content));
                    }
                    return true;
                }
                j = j + 1;
            }
        }
        i = i + 1;
    }
    false
}

/// The text that `char::to_uppercase` makes of a character.
pub uninterp spec fn uppercase(c: char) -> Seq<char>;

/// `char::to_uppercase`, collected. The text depends on the character alone;
/// an ASCII letter gives its capital, and any other ASCII character itself.
#[verifier::external_body]
fn upper_text(c: char) -> (r: String)
    ensures
        r@ == uppercase(c),
        'a' <= c <= 'z' ==> r@ == seq![(c as u8 - 32) as u8 as char],
        c <= '\u{7f}' && !('a' <= c <= 'z') ==> r@ == seq![c],
{
    c.to_uppercase().collect()
}

/// The first character of a text in upper case.
pub open spec fn upper_first(c: char) -> Seq<char> {
    if 'a' <= c <= 'z' {
        seq![(c as u8 - 32) as u8 as char]
    } else if c <= '\u{7f}' {
        seq![c]
    } else {
        uppercase(c)
    }
}

/// The label of a role in a transcript.
pub open spec fn role_label(role: Seq<char>) -> Seq<char> {
    if role == "system"@ {
        "[System]"@
    } else if role == "user"@ {
        "User"@
    } else if role == "assistant"@ {
        "Assistant"@
    } else if role.len() == 0 {
        Seq::empty()
    } else {
        upper_first(role[0]) + role.skip(1)
    }
}

/// The label of a role in a transcript.
pub fn label_of(role: &str) -> (r: String)
    ensures
        r@ == role_label(role@),
{
    if same(role, "system") {
        return "[System]".to_owned();
    }
    if same(role, "user") {
        return "User".to_owned();
    }
    if same(role, "assistant") {
        return "Assistant".to_owned();
    }
    let v = chars_of(role);
    if v.len() == 0 {
        return String::new();
    }
    let rest = text_range(&v, 1, v.len());
    proof {
        assert(rest@ =~= role@.skip(1));
    }
    upper_text(v[0]).concat(rest.as_str())
}

/// A message in a transcript.
pub open spec fn transcript_block(m: ChatMessage) -> Seq<char> {
    role_label(m.role@) + ": "@ + content_text(m.content)
}

/// The messages as one prompt: each with its label, with an empty line between
/// each two.
pub open spec fn transcript(messages: Seq<ChatMessage>) -> Seq<char> {
    joined(messages.map_values(|m: ChatMessage| transcript_block(m)), "\n\n"@)
}

/// Writes the messages as one prompt.
pub fn flatten_to_prompt(messages: &[ChatMessage]) -> (r: String)
    ensures
        r@ == transcript(messages@),
{
    let mut blocks: Vec<String> = Vec::new();
    let mut i: usize = 0;
    while i < messages.len()
        invariant
            i <= messages@.len(),
            blocks@.len() == i,
            forall|k: int| 0 <= k < i ==> #[trigger] blocks@[k]@ == transcript_block(messages@[k]),
        decreases messages@.len() - i,
    {
        let m = &messages[i];
        let block = label_of(m.role.as_str()).concat(": ").concat(
            content_to_text(&m.content).as_str(),
        );
        blocks.push(block);
        i = i + 1;
    }
    proof {
        assert(views(blocks@) =~= messages@.map_values(|m: ChatMessage| transcript_block(m)));
    }
    join_texts(&blocks, "\n\n")
}

/// The text of the last user message.
pub open spec fn last_user(messages: Seq<ChatMessage>) -> Option<Seq<char>>
    decreases messages.len(),
{
    if messages.len() == 0 {
        None
    } else if messages.last().role@ == "user"@ {
        Some(content_text(messages.last().content))
    } else {
        last_user(messages.drop_last())
    }
}

/// The texts of the system messages.
pub open spec fn system_texts(messages: Seq<ChatMessage>) -> Seq<Seq<char>>
    decreases messages.len(),
{
    if messages.len() == 0 {
        Seq::empty()
    } else {
        let front = system_texts(messages.drop_last());
        if messages.last().role@ == "system"@ {
            front.push(content_text(messages.last().content))
        } else {
            front
        }
    }
}

/// The last user message alone, with the system messages before it, and no
/// labels.
pub open spec fn plain_prompt(messages: Seq<ChatMessage>) -> Seq<char> {
    joined(
        match last_user(messages) {
            Some(t) => system_texts(messages).push(t),
            None => system_texts(messages),
        },
        "\n\n"@,
    )
}

/// The text of the last user message, where there is one.
fn find_last_user(messages: &[ChatMessage]) -> (r: Option<String>)
    ensures
        opt_view(r) == last_user(messages@),
{
    let mut n: usize = messages.len();
    proof {
        assert(messages@.take(n as int) =~= messages@);
    }
    while n > 0
        invariant
            n <= messages@.len(),
            last_user(messages@) == last_user(messages@.take(n as int)),
        decreases n,
    {
        proof {
            assert(messages@.take(n as int).drop_last() =~= messages@.take(n - 1));
        }
        if same(messages[n - 1].role.as_str(), "user") {
            return Some(content_to_text(&messages[n - 1].content));
        }
        n = n - 1;
    }
    None
}

/// The text of the last user message; empty where there is none.
pub fn last_user_text(messages: &[ChatMessage]) -> (r: String)
    ensures
        r@ == match last_user(messages@) {
            Some(t) => t,
            None => Seq::empty(),
        },
{
    match find_last_user(messages) {
        Some(t) => t,
        None => String::new(),
    }
}

/// The last user message alone, with the system messages before it.
pub fn last_user_prompt(messages: &[ChatMessage]) -> (r: String)
    ensures
        r@ == plain_prompt(messages@),
{
    let mut parts: Vec<String> = Vec::new();
    let mut i: usize = 0;
    proof {
        assert(views(parts@) =~= system_texts(messages@.take(0)));
    }
    while i < messages.len()
        invariant
            i <= messages@.len(),
            views(parts@) == system_texts(messages@.take(i as int)),
        decreases messages@.len() - i,
    {
        proof {
            assert(messages@.take(i + 1).drop_last() =~= messages@.take(i as int));
        }
        if same(messages[i].role.as_str(), "system") {
            let ghost before = parts@;
            let t = content_to_text(&messages[i].content);
            parts.push(t);
            proof {
                assert(views(parts@) =~= views(before).push(t@));
            }
        }
        i = i + 1;
    }
    proof {
        assert(messages@.take(i as int) =~= messages@);
    }
    let ghost before = parts@;
    if let Some(t) = find_last_user(messages) {
        parts.push(t);
        proof {
            assert(views(parts@) =~= views(before).push(t@));
        }
    }
    join_texts(&parts, "\n\n")
}

/// How messages are made into a prompt.
#[derive(Clone, Copy, PartialEq, Eq, Structural, Debug)]
pub enum PromptMode {
    /// All of them, with labels.
    Transcript,
    /// The last user message, with the system messages before it.
    LastUser,
}

/// The mode that a configured name stands for.
pub open spec fn mode_of(name: Seq<char>) -> Option<PromptMode> {
    if name == "transcript"@ {
        Some(PromptMode::Transcript)
    } else if name == "last_user"@ {
        Some(PromptMode::LastUser)
    } else {
        None
    }
}

impl PromptMode {
    /// Reads a mode's name.
    pub fn parse(name: &str) -> (r: Option<PromptMode>)
        ensures
            r == mode_of(name@),
    {
        if same(name, "transcript") {
            Some(PromptMode::Transcript)
        } else if same(name, "last_user") {
            Some(PromptMode::LastUser)
        } else {
            None
        }
    }
}

impl Default for PromptMode {
    fn default() -> (r: PromptMode)
        ensures
            r == PromptMode::Transcript,
    {
        PromptMode::Transcript
    }
}

/// The prompt that a mode makes of messages.
pub open spec fn prompt_for(mode: PromptMode, messages: Seq<ChatMessage>) -> Seq<char> {
    match mode {
        PromptMode::Transcript => transcript(messages),
        PromptMode::LastUser => plain_prompt(messages),
    }
}

/// The prompt that a leg of a chain is sent.
pub fn leg_prompt(mode: PromptMode, messages: &[ChatMessage]) -> (r: String)
    ensures
        r@ == prompt_for(mode, messages@),
{
    match mode {
        PromptMode::Transcript => flatten_to_prompt(messages),
        PromptMode::LastUser => last_user_prompt(messages),
    }
}

// ---------------------------------------------------------------------------
// Writing JSON
// ---------------------------------------------------------------------------

/// A JSON object of the given members.
pub open spec fn object_text(members: Seq<Seq<char>>) -> Seq<char> {
    "{"@ + joined(members, ","@) + "}"@
}

/// A JSON array of the given values.
pub open spec fn array_text(items: Seq<Seq<char>>) -> Seq<char> {
    "["@ + joined(items, ","@) + "]"@
}

/// A string or `null`.
pub open spec fn nullable(o: Option<Seq<char>>) -> Seq<char> {
    match o {
        Some(s) => quoted(s),
        None => "null"@,
    }
}

/// A JSON object of the given members.
pub fn object_of(members: &Vec<String>) -> (r: String)
    ensures
        r@ == object_text(views(members@)),
{
    "{".to_owned().concat(join_texts(members, ",").as_str()).concat("}")
}

/// A JSON array of the given values.
pub fn array_of(items: &Vec<String>) -> (r: String)
    ensures
        r@ == array_text(views(items@)),
{
    "[".to_owned().concat(join_texts(items, ",").as_str()).concat("]")
}

/// A string or `null`.
pub fn nullable_of(o: &Option<String>) -> (r: String)
    ensures
        r@ == nullable(opt_view(*o)),
{
    match o {
        Some(s) => quote(s.as_str()),
        None => "null".to_owned(),
    }
}

/// A member whose value is a string.
pub fn string_member(name: &str, value: &str) -> (r: String)
    ensures
        r@ == name@ + quoted(value@),
{
    name.to_owned().concat(quote(value).as_str())
}

/// A member whose value is a number.
pub fn number_member(name: &str, value: u64) -> (r: String)
    ensures
        r@ == name@ + decimal(value as nat),
{
    name.to_owned().concat(decimal_text(value as u128).as_str())
}

// ---------------------------------------------------------------------------
// Completions
// ---------------------------------------------------------------------------

/// A completion.
pub struct ChatCompletion {
    pub id: String,
    pub object: &'static str,
    pub created: u64,
    pub model: String,
    pub choices: Vec<Choice>,
    pub usage: Usage,
}

/// One choice of a completion.
pub struct Choice {
    pub index: u32,
    pub message: ResponseMessage,
    pub finish_reason: String,
}

/// The message of a choice.
pub struct ResponseMessage {
    pub role: &'static str,
    pub content: String,
}

/// How many tokens a completion took.
pub struct Usage {
    pub prompt_tokens: u32,
    pub completion_tokens: u32,
    pub total_tokens: u32,
}

/// The completion that holds one answer, in JSON. Tokens are not counted.
pub open spec fn answer_text(
    id: Seq<char>,
    model: Seq<char>,
    content: Seq<char>,
    created: u64,
) -> Seq<char> {
    object_text(
        seq![
            "\"id\":"@ + quoted(id),
            "\"object\":"@ + quoted("chat.completion"@),
            "\"created\":"@ + decimal(created as nat),
            "\"model\":"@ + quoted(model),
            "\"choices\":"@ + array_text(
                seq![
                    object_text(
                        seq![
                            "\"index\":"@ + decimal(0),
                            "\"message\":"@ + object_text(
                                seq![
                                    "\"role\":"@ + quoted("assistant"@),
                                    "\"content\":"@ + quoted(content),
                                ],
                            ),
                            "\"finish_reason\":"@ + quoted("stop"@),
                        ],
                    ),
                ],
            ),
            "\"usage\":"@ + object_text(
                seq![
                    "\"prompt_tokens\":"@ + decimal(0),
                    "\"completion_tokens\":"@ + decimal(0),
                    "\"total_tokens\":"@ + decimal(0),
                ],
            ),
        ],
    )
}

/// Makes the completion that holds one answer. Tokens are not counted.
pub fn build_completion(id: String, model: String, content: String, created: u64) -> (r:
    ChatCompletion)
    ensures
        r.id@ == id@,
        r.object@ == "chat.completion"@,
        r.created == created,
        r.model@ == model@,
        r.choices@.len() == 1,
        r.choices@[0].index == 0,
        r.choices@[0].message.role@ == "assistant"@,
        r.choices@[0].message.content@ == content@,
        r.choices@[0].finish_reason@ == "stop"@,
        r.usage == (Usage { prompt_tokens: 0, completion_tokens: 0, total_tokens: 0 }),
        completion_text(r) == answer_text(id@, model@, content@, created),
{
    let mut choices: Vec<Choice> = Vec::new();
    choices.push(
        Choice {
            index: 0,
            message: ResponseMessage { role: "assistant", content },
            finish_reason: "stop".to_owned(),
        },
    );
    let c = ChatCompletion {
        id,
        object: "chat.completion",
        created,
        model,
        choices,
        usage: Usage { prompt_tokens: 0, completion_tokens: 0, total_tokens: 0 },
    };
    proof {
        assert(c.choices@.map_values(|x: Choice| choice_text(x)) =~= seq![
            choice_text(c.choices@[0]),
        ]);
    }
    c
}

/// A choice in JSON.
pub open spec fn choice_text(c: Choice) -> Seq<char> {
    object_text(
        seq![
            "\"index\":"@ + decimal(c.index as nat),
            "\"message\":"@ + object_text(
                seq![
                    "\"role\":"@ + quoted(c.message.role@),
                    "\"content\":"@ + quoted(c.message.content@),
                ],
            ),
            "\"finish_reason\":"@ + quoted(c.finish_reason@),
        ],
    )
}

/// A completion in JSON.
pub open spec fn completion_text(c: ChatCompletion) -> Seq<char> {
    object_text(
        seq![
            "\"id\":"@ + quoted(c.id@),
            "\"object\":"@ + quoted(c.object@),
            "\"created\":"@ + decimal(c.created as nat),
            "\"model\":"@ + quoted(c.model@),
            "\"choices\":"@ + array_text(c.choices@.map_values(|x: Choice| choice_text(x))),
            "\"usage\":"@ + object_text(
                seq![
                    "\"prompt_tokens\":"@ + decimal(c.usage.prompt_tokens as nat),
                    "\"completion_tokens\":"@ + decimal(c.usage.completion_tokens as nat),
                    "\"total_tokens\":"@ + decimal(c.usage.total_tokens as nat),
                ],
            ),
        ],
    )
}

impl Choice {
    /// The choice in JSON.
    pub fn to_json(&self) -> (r: String)
        ensures
            r@ == choice_text(*self),
    {
        let mut inner: Vec<String> = Vec::new();
        inner.push(string_member("\"role\":", self.message.role));
        inner.push(string_member("\"content\":", self.message.content.as_str()));
        let mut m: Vec<String> = Vec::new();
        m.push(number_member("\"index\":", self.index as u64));
        m.push("\"message\":".to_owned().concat(object_of(&inner).as_str()));
        m.push(string_member("\"finish_reason\":", self.finish_reason.as_str()));
        proof {
            assert(views(inner@) =~= seq![
                "\"role\":"@ + quoted(self.message.role@),
                "\"content\":"@ + quoted(self.message.content@),
            ]);
            assert(object_text(views(m@)) == choice_text(*self)) by {
                assert(views(m@) =~= seq![
                    "\"index\":"@ + decimal(self.index as nat),
                    "\"message\":"@ + object_text(views(inner@)),
                    "\"finish_reason\":"@ + quoted(self.finish_reason@),
                ]);
            }
        }
        object_of(&m)
    }
}

impl ChatCompletion {
    /// The completion in JSON.
    pub fn to_json(&self) -> (r: String)
        ensures
            r@ == completion_text(*self),
    {
        let mut items: Vec<String> = Vec::new();
        let mut i: usize = 0;
        while i < self.choices.len()
            invariant
                i <= self.choices@.len(),
                items@.len() == i,
                forall|k: int| 0 <= k < i ==> #[trigger] items@[k]@ == choice_text(self.choices@[k]),
            decreases self.choices@.len() - i,
        {
            items.push(self.choices[i].to_json());
            i = i + 1;
        }
        let mut usage: Vec<String> = Vec::new();
        usage.push(number_member("\"prompt_tokens\":", self.usage.prompt_tokens as u64));
        usage.push(number_member("\"completion_tokens\":", self.usage.completion_tokens as u64));
        usage.push(number_member("\"total_tokens\":", self.usage.total_tokens as u64));
        let mut m: Vec<String> = Vec::new();
        m.push(string_member("\"id\":", self.id.as_str()));
        m.push(string_member("\"object\":", self.object));
        m.push(number_member("\"created\":", self.created));
        m.push(string_member("\"model\":", self.model.as_str()));
        m.push("\"choices\":".to_owned().concat(array_of(&items).as_str()));
        m.push("\"usage\":".to_owned().concat(object_of(&usage).as_str()));
        proof {
            assert(views(items@) =~= self.choices@.map_values(|x: Choice| choice_text(x)));
            assert(views(usage@) =~= seq![
                "\"prompt_tokens\":"@ + decimal(self.usage.prompt_tokens as nat),
                "\"completion_tokens\":"@ + decimal(self.usage.completion_tokens as nat),
                "\"total_tokens\":"@ + decimal(self.usage.total_tokens as nat),
            ]);
            assert(views(m@) =~= seq![
                "\"id\":"@ + quoted(self.id@),
                "\"object\":"@ + quoted(self.object@),
                "\"created\":"@ + decimal(self.created as nat),
                "\"model\":"@ + quoted(self.model@),
                "\"choices\":"@ + array_text(views(items@)),
                "\"usage\":"@ + object_text(views(usage@)),
            ]);
        }
        object_of(&m)
    }
}

// ---------------------------------------------------------------------------
// Streaming
// ---------------------------------------------------------------------------

/// A piece of a streamed completion.
pub struct ChatChunk {
    pub id: String,
    pub object: &'static str,
    pub created: u64,
    pub model: String,
    pub choices: Vec<ChunkChoice>,
}

/// One choice of a chunk.
pub struct ChunkChoice {
    pub index: u32,
    pub delta: Delta,
    pub finish_reason: Option<String>,
}

/// What a chunk adds. Members without a value are left out.
pub struct Delta {
    pub role: Option<&'static str>,
    pub content: Option<String>,
}

/// The members of a delta.
pub open spec fn delta_members(d: Delta) -> Seq<Seq<char>> {
    let role: Seq<Seq<char>> = match d.role {
        Some(r) => seq!["\"role\":"@ + quoted(r@)],
        None => Seq::empty(),
    };
    match d.content {
        Some(c) => role.push("\"content\":"@ + quoted(c@)),
        None => role,
    }
}

/// A chunk's choice in JSON.
pub open spec fn chunk_choice_text(c: ChunkChoice) -> Seq<char> {
    object_text(
        seq![
            "\"index\":"@ + decimal(c.index as nat),
            "\"delta\":"@ + object_text(delta_members(c.delta)),
            "\"finish_reason\":"@ + nullable(opt_view(c.finish_reason)),
        ],
    )
}

/// A chunk in JSON.
pub open spec fn chunk_text(c: ChatChunk) -> Seq<char> {
    object_text(
        seq![
            "\"id\":"@ + quoted(c.id@),
            "\"object\":"@ + quoted(c.object@),
            "\"created\":"@ + decimal(c.created as nat),
            "\"model\":"@ + quoted(c.model@),
            "\"choices\":"@ + array_text(c.choices@.map_values(|x: ChunkChoice| chunk_choice_text(x))),
        ],
    )
}

impl ChunkChoice {
    /// The choice in JSON.
    pub fn to_json(&self) -> (r: String)
        ensures
            r@ == chunk_choice_text(*self),
    {
        let mut inner: Vec<String> = Vec::new();
        if let Some(role) = self.delta.role {
            inner.push(string_member("\"role\":", role));
        }
        if let Some(content) = &self.delta.content {
            inner.push(string_member("\"content\":", content.as_str()));
        }
        let mut m: Vec<String> = Vec::new();
        m.push(number_member("\"index\":", self.index as u64));
        m.push("\"delta\":".to_owned().concat(object_of(&inner).as_str()));
        m.push("\"finish_reason\":".to_owned().concat(nullable_of(&self.finish_reason).as_str()));
        proof {
            assert(views(inner@) =~= delta_members(self.delta));
            assert(views(m@) =~= seq![
                "\"index\":"@ + decimal(self.index as nat),
                "\"delta\":"@ + object_text(views(inner@)),
                "\"finish_reason\":"@ + nullable(opt_view(self.finish_reason)),
            ]);
        }
        object_of(&m)
    }
}

impl ChatChunk {
    /// The chunk in JSON.
    pub fn to_json(&self) -> (r: String)
        ensures
            r@ == chunk_text(*self),
    {
        let mut items: Vec<String> = Vec::new();
        let mut i: usize = 0;
        while i < self.choices.len()
            invariant
                i <= self.choices@.len(),
                items@.len() == i,
                forall|k: int| 0 <= k < i ==> #[trigger] items@[k]@ == chunk_choice_text(self.choices@[k]),
            decreases self.choices@.len() - i,
        {
            items.push(self.choices[i].to_json());
            i = i + 1;
        }
        let mut m: Vec<String> = Vec::new();
        m.push(string_member("\"id\":", self.id.as_str()));
        m.push(string_member("\"object\":", self.object));
        m.push(number_member("\"created\":", self.created));
        m.push(string_member("\"model\":", self.model.as_str()));
        m.push("\"choices\":".to_owned().concat(array_of(&items).as_str()));
        proof {
            assert(views(items@) =~= self.choices@.map_values(
                |x: ChunkChoice| chunk_choice_text(x),
            ));
            assert(views(m@) =~= seq![
                "\"id\":"@ + quoted(self.id@),
                "\"object\":"@ + quoted(self.object@),
                "\"created\":"@ + decimal(self.created as nat),
                "\"model\":"@ + quoted(self.model@),
                "\"choices\":"@ + array_text(views(items@)),
            ]);
        }
        object_of(&m)
    }
}

/// The payload of a frame: a chunk with one choice.
pub open spec fn payload_text(
    id: Seq<char>,
    model: Seq<char>,
    created: u64,
    delta: Seq<Seq<char>>,
    finish: Option<Seq<char>>,
) -> Seq<char> {
    object_text(
        seq![
            "\"id\":"@ + quoted(id),
            "\"object\":"@ + quoted("chat.completion.chunk"@),
            "\"created\":"@ + decimal(created as nat),
            "\"model\":"@ + quoted(model),
            "\"choices\":"@ + array_text(
                seq![
                    object_text(
                        seq![
                            "\"index\":"@ + decimal(0),
                            "\"delta\":"@ + object_text(delta),
                            "\"finish_reason\":"@ + nullable(finish),
                        ],
                    ),
                ],
            ),
        ],
    )
}

/// A server-sent event that carries `payload`.
pub open spec fn event_text(payload: Seq<char>) -> Seq<char> {
    "data: "@ + payload + "\n\n"@
}

/// The event that ends a stream.
pub open spec fn done_text() -> Seq<char> {
    "data: [DONE]\n\n"@
}

/// The payloads of a streamed answer: the role, the content, the end.
pub open spec fn stream_payloads(
    id: Seq<char>,
    model: Seq<char>,
    content: Seq<char>,
    created: u64,
) -> Seq<Seq<char>> {
    seq![
        payload_text(
            id,
            model,
            created,
            seq!["\"role\":"@ + quoted("assistant"@), "\"content\":"@ + quoted(Seq::empty())],
            None,
        ),
        payload_text(id, model, created, seq!["\"content\":"@ + quoted(content)], None),
        payload_text(id, model, created, Seq::empty(), Some("stop"@)),
    ]
}

/// The events of a streamed answer, of which the last says that it is done.
pub open spec fn stream_events(
    id: Seq<char>,
    model: Seq<char>,
    content: Seq<char>,
    created: u64,
) -> Seq<Seq<char>> {
    stream_payloads(id, model, content, created).map_values(|p: Seq<char>| event_text(p)).push(
        done_text(),
    )
}

/// One frame of a stream.
fn frame(
    id: &str,
    model: &str,
    created: u64,
    role: Option<&'static str>,
    content: Option<String>,
    finish: Option<String>,
) -> (r: String)
    ensures
        r@ == event_text(
            payload_text(
                id@,
                model@,
                created,
                delta_members(Delta { role, content }),
                opt_view(finish),
            ),
        ),
{
    let ghost delta = Delta { role, content };
    let ghost fin = opt_view(finish);
    let choice = ChunkChoice { index: 0, delta: Delta { role, content }, finish_reason: finish };
    let mut choices: Vec<ChunkChoice> = Vec::new();
    choices.push(choice);
    let chunk = ChatChunk {
        id: id.to_owned(),
        object: "chat.completion.chunk",
        created,
        model: model.to_owned(),
        choices,
    };
    proof {
        assert(chunk.choices@.map_values(|x: ChunkChoice| chunk_choice_text(x)) =~= seq![
            object_text(
                seq![
                    "\"index\":"@ + decimal(0),
                    "\"delta\":"@ + object_text(delta_members(delta)),
                    "\"finish_reason\":"@ + nullable(fin),
                ],
            ),
        ]);
    }
    "data: ".to_owned().concat(chunk.to_json().as_str()).concat("\n\n")
}

/// The events of an answer that is streamed all at once: the role, the whole
/// content, the end, and the mark that the stream is done.
pub fn stream_frames(id: &str, model: &str, content: &str, created: u64) -> (r: Vec<String>)
    ensures
        views(r@) == stream_events(id@, model@, content@, created),
{
    let mut out: Vec<String> = Vec::new();
    let first = String::new();
    let text = content.to_owned();
    let stop = "stop".to_owned();
    proof {
        assert(delta_members(Delta { role: Some("assistant"), content: Some(first) }) =~= seq![
            "\"role\":"@ + quoted("assistant"@),
            "\"content\":"@ + quoted(first@),
        ]);
        assert(first@ =~= Seq::<char>::empty());
        assert(delta_members(Delta { role: None, content: Some(text) }) =~= seq![
            "\"content\":"@ + quoted(content@),
        ]);
        assert(delta_members(Delta { role: None, content: None }) =~= Seq::<Seq<char>>::empty());
    }
    out.push(frame(id, model, created, Some("assistant"), Some(first), None));
    out.push(frame(id, model, created, None, Some(text), None));
    out.push(frame(id, model, created, None, None, Some(stop)));
    out.push("data: [DONE]\n\n".to_owned());
    proof {
        assert(views(out@) =~= stream_events(id@, model@, content@, created));
    }
    out
}

// ---------------------------------------------------------------------------
// The model list
// ---------------------------------------------------------------------------

/// The models that a client may name.
pub struct ModelList {
    pub object: &'static str,
    pub data: Vec<ModelInfo>,
}

/// One model.
pub struct ModelInfo {
    pub id: String,
    pub object: &'static str,
    pub created: u64,
    pub owned_by: String,
}

/// A model in JSON.
pub open spec fn model_text(id: Seq<char>, created: u64) -> Seq<char> {
    object_text(
        seq![
            "\"id\":"@ + quoted(id),
            "\"object\":"@ + quoted("model"@),
            "\"created\":"@ + decimal(created as nat),
            "\"owned_by\":"@ + quoted("tmuxlet-server"@),
        ],
    )
}

/// A model list in JSON.
pub open spec fn model_list_text(ids: Seq<Seq<char>>, created: u64) -> Seq<char> {
    object_text(
        seq![
            "\"object\":"@ + quoted("list"@),
            "\"data\":"@ + array_text(ids.map_values(|id: Seq<char>| model_text(id, created))),
        ],
    )
}

/// A list holds the given models.
pub open spec fn lists_models(l: ModelList, ids: Seq<Seq<char>>, created: u64) -> bool {
    &&& l.object@ == "list"@
    &&& l.data@.len() == ids.len()
    &&& forall|i: int|
        0 <= i < ids.len() ==> {
            &&& (#[trigger] l.data@[i]).id@ == ids[i]
            &&& l.data@[i].object@ == "model"@
            &&& l.data@[i].created == created
            &&& l.data@[i].owned_by@ == "tmuxlet-server"@
        }
}

/// Makes the list of the given models.
pub fn model_list(ids: Vec<String>, created: u64) -> (r: ModelList)
    ensures
        lists_models(r, views(ids@), created),
{
    let mut data: Vec<ModelInfo> = Vec::new();
    let mut i: usize = 0;
    while i < ids.len()
        invariant
            i <= ids@.len(),
            data@.len() == i,
            forall|k: int|
                0 <= k < i ==> {
                    &&& (#[trigger] data@[k]).id@ == ids@[k]@
                    &&& data@[k].object@ == "model"@
                    &&& data@[k].created == created
                    &&& data@[k].owned_by@ == "tmuxlet-server"@
                },
        decreases ids@.len() - i,
    {
        data.push(
            ModelInfo {
                id: ids[i].clone(),
                object: "model",
                created,
                owned_by: "tmuxlet-server".to_owned(),
            },
        );
        i = i + 1;
    }
    ModelList { object: "list", data }
}

/// A model's own members in JSON.
pub open spec fn info_text(m: ModelInfo) -> Seq<char> {
    object_text(
        seq![
            "\"id\":"@ + quoted(m.id@),
            "\"object\":"@ + quoted(m.object@),
            "\"created\":"@ + decimal(m.created as nat),
            "\"owned_by\":"@ + quoted(m.owned_by@),
        ],
    )
}

impl ModelInfo {
    /// The model in JSON.
    pub fn to_json(&self) -> (r: String)
        ensures
            r@ == info_text(*self),
    {
        let mut m: Vec<String> = Vec::new();
        m.push(string_member("\"id\":", self.id.as_str()));
        m.push(string_member("\"object\":", self.object));
        m.push(number_member("\"created\":", self.created));
        m.push(string_member("\"owned_by\":", self.owned_by.as_str()));
        proof {
            assert(views(m@) =~= seq![
                "\"id\":"@ + quoted(self.id@),
                "\"object\":"@ + quoted(self.object@),
                "\"created\":"@ + decimal(self.created as nat),
                "\"owned_by\":"@ + quoted(self.owned_by@),
            ]);
        }
        object_of(&m)
    }
}

impl ModelList {
    /// The list in JSON.
    pub fn to_json(&self) -> (r: String)
        ensures
            r@ == object_text(
                seq![
                    "\"object\":"@ + quoted(self.object@),
                    "\"data\":"@ + array_text(self.data@.map_values(|m: ModelInfo| info_text(m))),
                ],
            ),
            forall|ids: Seq<Seq<char>>, created: u64|
                #[trigger] lists_models(*self, ids, created) ==> r@ == model_list_text(ids, created),
    {
        let mut items: Vec<String> = Vec::new();
        let mut i: usize = 0;
        while i < self.data.len()
            invariant
                i <= self.data@.len(),
                items@.len() == i,
                forall|k: int| 0 <= k < i ==> #[trigger] items@[k]@ == info_text(self.data@[k]),
            decreases self.data@.len() - i,
        {
            items.push(self.data[i].to_json());
            i = i + 1;
        }
        let mut m: Vec<String> = Vec::new();
        m.push(string_member("\"object\":", self.object));
        m.push("\"data\":".to_owned().concat(array_of(&items).as_str()));
        proof {
            assert(views(items@) =~= self.data@.map_values(|m: ModelInfo| info_text(m)));
            assert(views(m@) =~= seq![
                "\"object\":"@ + quoted(self.object@),
                "\"data\":"@ + array_text(views(items@)),
            ]);
            assert forall|ids: Seq<Seq<char>>, created: u64| #[trigger]
                lists_models(*self, ids, created) implies object_text(views(m@)) == model_list_text(
                ids,
                created,
            ) by {
                assert(views(items@) =~= ids.map_values(|id: Seq<char>| model_text(id, created)));
            }
        }
        object_of(&m)
    }
}

// ---------------------------------------------------------------------------
// Errors
// ---------------------------------------------------------------------------

/// The body of an error response.
pub struct ErrorEnvelope {
    pub error: ApiError,
}

/// What went wrong. `details` is left out where there is none.
pub struct ApiError {
    pub message: String,
    pub error_type: String,
    pub param: Option<String>,
    pub code: Option<String>,
    pub details: Option<Vec<String>>,
}

/// The members of an error that every error has.
pub open spec fn error_members(
    message: Seq<char>,
    error_type: Seq<char>,
    param: Option<Seq<char>>,
    code: Option<Seq<char>>,
) -> Seq<Seq<char>> {
    seq![
        "\"message\":"@ + quoted(message),
        "\"type\":"@ + quoted(error_type),
        "\"param\":"@ + nullable(param),
        "\"code\":"@ + nullable(code),
    ]
}

/// An error envelope in JSON.
pub open spec fn envelope_text(members: Seq<Seq<char>>) -> Seq<char> {
    object_text(seq!["\"error\":"@ + object_text(members)])
}

/// The body of an error without details.
pub open spec fn error_text(
    message: Seq<char>,
    error_type: Seq<char>,
    code: Option<Seq<char>>,
) -> Seq<char> {
    envelope_text(error_members(message, error_type, None, code))
}

/// The body of an error with details.
pub open spec fn detailed_error_text(
    message: Seq<char>,
    error_type: Seq<char>,
    code: Option<Seq<char>>,
    details: Seq<Seq<char>>,
) -> Seq<char> {
    envelope_text(
        error_members(message, error_type, None, code).push(
            "\"details\":"@ + array_text(details.map_values(|d: Seq<char>| quoted(d))),
        ),
    )
}

/// An error's members in JSON.
pub open spec fn api_error_members(e: ApiError) -> Seq<Seq<char>> {
    let base = error_members(e.message@, e.error_type@, opt_view(e.param), opt_view(e.code));
    match e.details {
        Some(d) => base.push(
            "\"details\":"@ + array_text(views(d@).map_values(|x: Seq<char>| quoted(x))),
        ),
        None => base,
    }
}

/// The text of an optional code as an owned string.
fn owned_code(code: Option<&str>) -> (r: Option<String>)
    ensures
        opt_view(r) == crate::text::opt_str_view(code),
{
    match code {
        Some(c) => Some(c.to_owned()),
        None => None,
    }
}

impl ErrorEnvelope {
    /// An error without details.
    pub fn new(message: &str, error_type: &str, code: Option<&str>) -> (r: ErrorEnvelope)
        ensures
            r.error.message@ == message@,
            r.error.error_type@ == error_type@,
            r.error.param is None,
            opt_view(r.error.code) == crate::text::opt_str_view(code),
            r.error.details is None,
    {
        ErrorEnvelope {
            error: ApiError {
                message: message.to_owned(),
                error_type: error_type.to_owned(),
                param: None,
                code: owned_code(code),
                details: None,
            },
        }
    }

    /// An error with details.
    pub fn with_details(
        message: &str,
        error_type: &str,
        code: Option<&str>,
        details: Vec<String>,
    ) -> (r: ErrorEnvelope)
        ensures
            r.error.message@ == message@,
            r.error.error_type@ == error_type@,
            r.error.param is None,
            opt_view(r.error.code) == crate::text::opt_str_view(code),
            r.error.details == Some(details),
    {
        ErrorEnvelope {
            error: ApiError {
                message: message.to_owned(),
                error_type: error_type.to_owned(),
                param: None,
                code: owned_code(code),
                details: Some(details),
            },
        }
    }

    /// The body in JSON.
    pub fn to_json(&self) -> (r: String)
        ensures
            r@ == envelope_text(api_error_members(self.error)),
    {
        let e = &self.error;
        let mut m: Vec<String> = Vec::new();
        m.push(string_member("\"message\":", e.message.as_str()));
        m.push(string_member("\"type\":", e.error_type.as_str()));
        m.push("\"param\":".to_owned().concat(nullable_of(&e.param).as_str()));
        m.push("\"code\":".to_owned().concat(nullable_of(&e.code).as_str()));
        proof {
            assert(views(m@) =~= error_members(
                e.message@,
                e.error_type@,
                opt_view(e.param),
                opt_view(e.code),
            ));
        }
        let ghost base = m@;
        if let Some(d) = &e.details {
            let mut items: Vec<String> = Vec::new();
            let mut i: usize = 0;
            while i < d.len()
                invariant
                    i <= d@.len(),
                    items@.len() == i,
                    forall|k: int| 0 <= k < i ==> #[trigger] items@[k]@ == quoted(d@[k]@),
                decreases d@.len() - i,
            {
                items.push(quote(d[i].as_str()));
                i = i + 1;
            }
            let text = "\"details\":".to_owned().concat(array_of(&items).as_str());
            m.push(text);
            proof {
                assert(views(items@) =~= views(d@).map_values(|x: Seq<char>| quoted(x)));
                assert(views(m@) =~= views(base).push(text@));
            }
        }
        let mut outer: Vec<String> = Vec::new();
        outer.push("\"error\":".to_owned().concat(object_of(&m).as_str()));
        proof {
            assert(views(outer@) =~= seq!["\"error\":"@ + object_text(views(m@))]);
        }
        object_of(&outer)
    }
}

// ---------------------------------------------------------------------------
// Events are one line each
// ---------------------------------------------------------------------------

/// A text on one line, without control characters.
pub open spec fn one_line(s: Seq<char>) -> bool {
    forall|i: int| 0 <= i < s.len() ==> #[trigger] s[i] > '\u{1f}'
}

proof fn lemma_one_line_concat(a: Seq<char>, b: Seq<char>)
    requires
        one_line(a),
        one_line(b),
    ensures
        one_line(a + b),
{
    assert forall|i: int| 0 <= i < (a + b).len() implies #[trigger] (a + b)[i] > '\u{1f}' by {
        if i < a.len() {
            assert((a + b)[i] == a[i]);
        } else {
            assert((a + b)[i] == b[i - a.len()]);
        }
    }
}

proof fn lemma_one_line_joined(parts: Seq<Seq<char>>)
    requires
        forall|i: int| 0 <= i < parts.len() ==> one_line(#[trigger] parts[i]),
    ensures
        one_line(joined(parts, ","@)),
    decreases parts.len(),
{
    reveal_strlit(",");
    if parts.len() > 1 {
        let front = parts.drop_last();
        assert forall|i: int| 0 <= i < front.len() implies one_line(#[trigger] front[i]) by {
            assert(front[i] == parts[i]);
        }
        lemma_one_line_joined(front);
        assert(one_line(parts[parts.len() - 1]));
        lemma_one_line_concat(joined(front, ","@), ","@);
        lemma_one_line_concat(joined(front, ","@) + ","@, parts.last());
    } else if parts.len() == 1 {
        assert(one_line(parts[0]));
    }
}

/// An object of one-line members is on one line.
pub proof fn lemma_one_line_object(members: Seq<Seq<char>>)
    requires
        forall|i: int| 0 <= i < members.len() ==> one_line(#[trigger] members[i]),
    ensures
        one_line(object_text(members)),
        one_line(array_text(members)),
{
    reveal_strlit("{");
    reveal_strlit("}");
    reveal_strlit("[");
    reveal_strlit("]");
    lemma_one_line_joined(members);
    let j = joined(members, ","@);
    lemma_one_line_concat("{"@, j);
    lemma_one_line_concat("{"@ + j, "}"@);
    lemma_one_line_concat("["@, j);
    lemma_one_line_concat("["@ + j, "]"@);
}

/// A member with a string for its value is on one line.
pub proof fn lemma_one_line_member(name: Seq<char>, value: Option<Seq<char>>)
    requires
        one_line(name),
    ensures
        one_line(name + nullable(value)),
        value is Some ==> one_line(name + quoted(value->0)),
{
    reveal_strlit("null");
    if value is Some {
        law_quoted_is_one_line(value->0);
    }
    lemma_one_line_concat(name, nullable(value));
}

proof fn lemma_one_line_payload(
    id: Seq<char>,
    model: Seq<char>,
    created: u64,
    delta: Seq<Seq<char>>,
    finish: Option<Seq<char>>,
)
    requires
        forall|i: int| 0 <= i < delta.len() ==> one_line(#[trigger] delta[i]),
    ensures
        one_line(payload_text(id, model, created, delta, finish)),
{
    reveal_strlit("\"id\":");
    reveal_strlit("\"object\":");
    reveal_strlit("\"created\":");
    reveal_strlit("\"model\":");
    reveal_strlit("\"choices\":");
    reveal_strlit("\"index\":");
    reveal_strlit("\"delta\":");
    reveal_strlit("\"finish_reason\":");
    lemma_decimal_digits(0);
    lemma_decimal_digits(created as nat);
    lemma_one_line_concat("\"index\":"@, decimal(0));
    lemma_one_line_object(delta);
    lemma_one_line_concat("\"delta\":"@, object_text(delta));
    lemma_one_line_member("\"finish_reason\":"@, finish);
    let inner = seq![
        "\"index\":"@ + decimal(0),
        "\"delta\":"@ + object_text(delta),
        "\"finish_reason\":"@ + nullable(finish),
    ];
    lemma_one_line_object(inner);
    let choices = seq![object_text(inner)];
    lemma_one_line_object(choices);
    lemma_one_line_member("\"id\":"@, Some(id));
    lemma_one_line_member("\"object\":"@, Some("chat.completion.chunk"@));
    lemma_one_line_concat("\"created\":"@, decimal(created as nat));
    lemma_one_line_member("\"model\":"@, Some(model));
    lemma_one_line_concat("\"choices\":"@, array_text(choices));
    lemma_one_line_object(
        seq![
            "\"id\":"@ + quoted(id),
            "\"object\":"@ + quoted("chat.completion.chunk"@),
            "\"created\":"@ + decimal(created as nat),
            "\"model\":"@ + quoted(model),
            "\"choices\":"@ + array_text(choices),
        ],
    );
}

/// Whatever the content, each payload of a stream is on one line, so that an
/// empty line ends an event and nothing else does; the stream ends with the
/// mark that it is done.
pub proof fn law_stream_payloads_are_one_line(
    id: Seq<char>,
    model: Seq<char>,
    content: Seq<char>,
    created: u64,
)
    ensures
        forall|i: int|
            0 <= i < stream_payloads(id, model, content, created).len() ==> one_line(
                #[trigger] stream_payloads(id, model, content, created)[i],
            ),
        stream_events(id, model, content, created).last() == done_text(),
{
    reveal_strlit("\"role\":");
    reveal_strlit("\"content\":");
    lemma_one_line_member("\"role\":"@, Some("assistant"@));
    lemma_one_line_member("\"content\":"@, Some(Seq::empty()));
    lemma_one_line_member("\"content\":"@, Some(content));
    lemma_one_line_payload(
        id,
        model,
        created,
        seq!["\"role\":"@ + quoted("assistant"@), "\"content\":"@ + quoted(Seq::empty())],
        None,
    );
    lemma_one_line_payload(id, model, created, seq!["\"content\":"@ + quoted(content)], None);
    lemma_one_line_payload(id, model, created, Seq::empty(), Some("stop"@));
}

/// A reader that cuts a stream at empty lines finds the event of a one-line
/// payload whole, and behind it what follows.
pub proof fn law_event_is_read_back(payload: Seq<char>, rest: Seq<char>)
    requires
        one_line(payload),
    ensures
        ({
            let stream = event_text(payload) + rest;
            let end = find_text_from(stream, "\n\n"@, 0);
            &&& stream.take(end) == "data: "@ + payload
            &&& stream.skip(end + 2) == rest
        }),
{
    reveal_strlit("data: ");
    reveal_strlit("\n\n");
    let line = "data: "@ + payload;
    let stream = event_text(payload) + rest;
    let end = line.len() as int;
    assert(stream =~= line + ("\n\n"@ + rest));
    assert(one_line("data: "@));
    lemma_one_line_concat("data: "@, payload);
    assert forall|k: int| 0 <= k < end implies !occurs_at(stream, "\n\n"@, k) by {
        if occurs_at(stream, "\n\n"@, k) {
            assert(stream.subrange(k, k + 2)[0] == '\n');
            assert(stream[k] == line[k]);
        }
    }
    assert(stream.subrange(end, end + 2) =~= "\n\n"@);
    lemma_find_text_from_is(stream, "\n\n"@, 0, end);
    assert(stream.take(end) =~= line);
    assert(stream.skip(end + 2) =~= rest);
}

} // verus!
