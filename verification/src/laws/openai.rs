//! Laws on prompts and on the wire format: what is made of messages, and what
//! stands in a completion, a chunk, a model list and an error.

use vstd::prelude::*;

use crate::json::quoted;
use crate::laws::text::law_joined_adds_at_the_end;
use crate::openai::{
    answer_text, api_error_members, array_text, choice_text, chunk_choice_text, chunk_text,
    completion_text, content_text, delta_members, detailed_error_text, drops_parts, envelope_text,
    error_members, error_text, info_text, last_user, lists_models, mode_of, model_list_text,
    model_text, nullable, object_text, payload_text, plain_prompt, prompt_for, role_label,
    stream_events, system_texts, transcript, transcript_block, uppercase, ApiError, ChatChunk,
    ChatCompletion, ChatMessage, Choice, ChunkChoice, ContentPart, Delta, MessageContent, ModelInfo,
    ModelList, PromptMode,
};
use crate::text::{decimal, joined, opt_view, views};

verus! {

// ---------------------------------------------------------------------------
// Prompts
// ---------------------------------------------------------------------------

/// No messages make an empty prompt, one makes its block, and each further one
/// adds its block behind an empty line.
pub proof fn law_every_message_is_in_the_transcript(ms: Seq<ChatMessage>, m: ChatMessage)
    ensures
        transcript(Seq::empty()) == Seq::<char>::empty(),
        transcript(seq![m]) == role_label(m.role@) + ": "@ + content_text(m.content),
        ms.len() > 0 ==> transcript(ms.push(m)) == transcript(ms) + "\n\n"@ + (role_label(m.role@)
            + ": "@ + content_text(m.content)),
{
    let f = |x: ChatMessage| transcript_block(x);
    assert(Seq::<ChatMessage>::empty().map_values(f) =~= Seq::<Seq<char>>::empty());
    assert(ms.push(m).map_values(f) =~= ms.map_values(f).push(transcript_block(m)));
    assert(seq![m].map_values(f) =~= Seq::<Seq<char>>::empty().push(transcript_block(m)));
    law_joined_adds_at_the_end(ms.map_values(f), transcript_block(m), "\n\n"@);
    law_joined_adds_at_the_end(Seq::empty(), transcript_block(m), "\n\n"@);
}

/// The prompt of two lists of messages, one behind the other, is the one's
/// prompt and the other's with an empty line between them. So every message
/// stands in the prompt, in order.
pub proof fn law_transcripts_add_up(a: Seq<ChatMessage>, b: Seq<ChatMessage>)
    requires
        a.len() > 0,
        b.len() > 0,
    ensures
        transcript(a + b) == transcript(a) + "\n\n"@ + transcript(b),
    decreases b.len(),
{
    let m = b.last();
    let front = b.drop_last();
    assert(a + b =~= (a + front).push(m));
    assert(b =~= front.push(m));
    law_every_message_is_in_the_transcript(a + front, m);
    law_every_message_is_in_the_transcript(front, m);
    if front.len() == 0 {
        assert(a + front =~= a);
        assert(b =~= seq![m]);
    } else {
        law_transcripts_add_up(a, front);
    }
    assert(transcript(a + b) =~= transcript(a) + "\n\n"@ + transcript(b));
}

proof fn lemma_roles_differ()
    ensures
        "system"@ != "user"@,
        "system"@ != "assistant"@,
        "user"@ != "assistant"@,
        "system"@.len() > 0,
        "user"@.len() > 0,
        "assistant"@.len() > 0,
{
    reveal_strlit("system");
    reveal_strlit("user");
    reveal_strlit("assistant");
    assert("system"@.len() == 6 && "user"@.len() == 4 && "assistant"@.len() == 9);
}

/// The label of each role: the three that are known have their own, and every
/// other is written with a capital.
pub proof fn law_roles_have_labels(c: char, rest: Seq<char>)
    ensures
        role_label("system"@) == "[System]"@,
        role_label("user"@) == "User"@,
        role_label("assistant"@) == "Assistant"@,
        role_label(Seq::empty()) == Seq::<char>::empty(),
        ({
            let role = seq![c] + rest;
            role != "system"@ && role != "user"@ && role != "assistant"@ ==> {
                &&& 'a' <= c <= 'z' ==> role_label(role) == seq![(c as u8 - 32) as u8 as char] + rest
                &&& c <= '\u{7f}' && !('a' <= c <= 'z') ==> role_label(role) == role
                &&& c > '\u{7f}' ==> role_label(role) == uppercase(c) + rest
            }
        }),
{
    lemma_roles_differ();
    assert((seq![c] + rest).skip(1) =~= rest);
}

/// The text of a message is its text, or its text parts in order, one on a
/// line; a part that is not text adds nothing.
pub proof fn law_text_parts_stand_in_order(s: String, ps: Vec<ContentPart>, qs: Vec<ContentPart>)
    ensures
        content_text(MessageContent::Text(s)) == s@,
        qs@.len() == 0 ==> content_text(MessageContent::Parts(qs)) == Seq::<char>::empty(),
        qs@ == ps@.push(ContentPart::Other) ==> content_text(MessageContent::Parts(qs))
            == content_text(MessageContent::Parts(ps)),
        qs@ == ps@.push(ContentPart::Text { text: s }) && (forall|i: int|
            0 <= i < ps@.len() ==> #[trigger] ps@[i] is Other) ==> content_text(
            MessageContent::Parts(qs),
        ) == s@,
        qs@ == ps@.push(ContentPart::Text { text: s }) && (exists|i: int|
            0 <= i < ps@.len() && #[trigger] ps@[i] is Text) ==> content_text(
            MessageContent::Parts(qs),
        ) == content_text(MessageContent::Parts(ps)) + "\n"@ + s@,
{
    lemma_texts_among(ps@);
    law_joined_adds_at_the_end(crate::openai::part_texts(ps@), s@, "\n"@);
    assert(ps@.push(ContentPart::Other).drop_last() =~= ps@);
    assert(ps@.push(ContentPart::Text { text: s }).drop_last() =~= ps@);
}

proof fn lemma_texts_among(ps: Seq<ContentPart>)
    ensures
        (forall|i: int| 0 <= i < ps.len() ==> #[trigger] ps[i] is Other)
            ==> crate::openai::part_texts(ps).len() == 0,
        (exists|i: int| 0 <= i < ps.len() && #[trigger] ps[i] is Text)
            ==> crate::openai::part_texts(ps).len() > 0,
    decreases ps.len(),
{
    if ps.len() > 0 {
        let front = ps.drop_last();
        lemma_texts_among(front);
        if forall|i: int| 0 <= i < ps.len() ==> #[trigger] ps[i] is Other {
            assert forall|i: int| 0 <= i < front.len() implies #[trigger] front[i] is Other by {
                assert(ps[i] is Other);
            }
            assert(ps[ps.len() - 1] is Other);
        }
        if exists|i: int| 0 <= i < ps.len() && #[trigger] ps[i] is Text {
            let i = choose|i: int| 0 <= i < ps.len() && #[trigger] ps[i] is Text;
            if i < front.len() {
                assert(front[i] is Text);
            }
        }
    }
}

/// A message drops parts exactly where one of its parts is not text.
pub proof fn law_dropped_parts_are_the_others(s: String, ps: Vec<ContentPart>, i: int)
    ensures
        !drops_parts(MessageContent::Text(s)),
        0 <= i < ps@.len() && ps@[i] is Other ==> drops_parts(MessageContent::Parts(ps)),
        (forall|k: int| 0 <= k < ps@.len() ==> #[trigger] ps@[k] is Text) ==> !drops_parts(
            MessageContent::Parts(ps),
        ),
{
}

/// Without labels, a user message at the end is the prompt, behind the system
/// messages before and after it in their order; messages of other roles leave
/// the prompt as it is; and what a later user message says replaces what the
/// earlier one did.
pub proof fn law_the_last_user_message_counts(ms: Seq<ChatMessage>, m: ChatMessage)
    ensures
        plain_prompt(Seq::empty()) == Seq::<char>::empty(),
        m.role@ != "user"@ && m.role@ != "system"@ ==> plain_prompt(ms.push(m)) == plain_prompt(ms),
        m.role@ == "user"@ && system_texts(ms).len() == 0 ==> plain_prompt(ms.push(m))
            == content_text(m.content),
        m.role@ == "user"@ && system_texts(ms).len() > 0 ==> plain_prompt(ms.push(m)) == joined(
            system_texts(ms),
            "\n\n"@,
        ) + "\n\n"@ + content_text(m.content),
        m.role@ == "system"@ ==> last_user(ms.push(m)) == last_user(ms),
        m.role@ == "user"@ ==> last_user(ms.push(m)) == Some(content_text(m.content)),
        m.role@ == "system"@ ==> system_texts(ms.push(m)) == system_texts(ms).push(
            content_text(m.content),
        ),
        m.role@ != "system"@ ==> system_texts(ms.push(m)) == system_texts(ms),
        last_user(ms) is None ==> plain_prompt(ms) == joined(system_texts(ms), "\n\n"@),
        last_user(ms) matches Some(t) ==> plain_prompt(ms) == joined(
            system_texts(ms).push(t),
            "\n\n"@,
        ),
{
    lemma_roles_differ();
    assert(ms.push(m).drop_last() =~= ms);
    law_joined_adds_at_the_end(system_texts(ms), content_text(m.content), "\n\n"@);
    law_joined_adds_at_the_end(Seq::empty(), Seq::empty(), "\n\n"@);
}

/// Where no message is a user's there is no last one, and where one is there is.
pub proof fn law_users_are_found(ms: Seq<ChatMessage>, i: int)
    ensures
        0 <= i < ms.len() && ms[i].role@ == "user"@ ==> last_user(ms) is Some,
        (forall|k: int| 0 <= k < ms.len() ==> (#[trigger] ms[k]).role@ != "user"@) ==> last_user(ms)
            is None,
    decreases ms.len(),
{
    if ms.len() > 0 {
        law_users_are_found(ms.drop_last(), i);
        if 0 <= i < ms.len() - 1 {
            assert(ms.drop_last()[i] == ms[i]);
        }
        if forall|k: int| 0 <= k < ms.len() ==> (#[trigger] ms[k]).role@ != "user"@ {
            assert forall|k: int| 0 <= k < ms.len() - 1 implies (#[trigger] ms.drop_last()[k]).role@
                != "user"@ by {
                assert(ms[k].role@ != "user"@);
            }
            assert(ms[ms.len() - 1].role@ != "user"@);
        }
    }
}

/// The two modes are known by their names, and each makes its own prompt.
pub proof fn law_modes_have_names(name: Seq<char>, ms: Seq<ChatMessage>)
    ensures
        mode_of("transcript"@) == Some(PromptMode::Transcript),
        mode_of("last_user"@) == Some(PromptMode::LastUser),
        mode_of(name) is Some ==> name == "transcript"@ || name == "last_user"@,
        prompt_for(PromptMode::Transcript, ms) == transcript(ms),
        prompt_for(PromptMode::LastUser, ms) == plain_prompt(ms),
{
    reveal_strlit("transcript");
    reveal_strlit("last_user");
    assert("transcript"@.len() == 10 && "last_user"@.len() == 9);
}

// ---------------------------------------------------------------------------
// The wire format
// ---------------------------------------------------------------------------

proof fn lemma_joined_one(a: Seq<char>, s: Seq<char>)
    ensures
        joined(seq![a], s) == a,
{
    law_joined_adds_at_the_end(Seq::empty(), a, s);
    assert(seq![a] =~= Seq::<Seq<char>>::empty().push(a));
}

proof fn lemma_joined_two(a: Seq<char>, b: Seq<char>, s: Seq<char>)
    ensures
        joined(seq![a, b], s) == a + s + b,
{
    lemma_joined_one(a, s);
    law_joined_adds_at_the_end(seq![a], b, s);
    assert(seq![a, b] =~= seq![a].push(b));
}

proof fn lemma_joined_three(a: Seq<char>, b: Seq<char>, c: Seq<char>, s: Seq<char>)
    ensures
        joined(seq![a, b, c], s) == a + s + b + s + c,
{
    lemma_joined_two(a, b, s);
    law_joined_adds_at_the_end(seq![a, b], c, s);
    assert(seq![a, b, c] =~= seq![a, b].push(c));
}

proof fn lemma_joined_four(a: Seq<char>, b: Seq<char>, c: Seq<char>, d: Seq<char>, s: Seq<char>)
    ensures
        joined(seq![a, b, c, d], s) == a + s + b + s + c + s + d,
{
    lemma_joined_three(a, b, c, s);
    law_joined_adds_at_the_end(seq![a, b, c], d, s);
    assert(seq![a, b, c, d] =~= seq![a, b, c].push(d));
}

proof fn lemma_joined_five(
    a: Seq<char>,
    b: Seq<char>,
    c: Seq<char>,
    d: Seq<char>,
    e: Seq<char>,
    s: Seq<char>,
)
    ensures
        joined(seq![a, b, c, d, e], s) == a + s + b + s + c + s + d + s + e,
{
    lemma_joined_four(a, b, c, d, s);
    law_joined_adds_at_the_end(seq![a, b, c, d], e, s);
    assert(seq![a, b, c, d, e] =~= seq![a, b, c, d].push(e));
}

proof fn lemma_joined_six(
    a: Seq<char>,
    b: Seq<char>,
    c: Seq<char>,
    d: Seq<char>,
    e: Seq<char>,
    f: Seq<char>,
    s: Seq<char>,
)
    ensures
        joined(seq![a, b, c, d, e, f], s) == a + s + b + s + c + s + d + s + e + s + f,
{
    lemma_joined_five(a, b, c, d, e, s);
    law_joined_adds_at_the_end(seq![a, b, c, d, e], f, s);
    assert(seq![a, b, c, d, e, f] =~= seq![a, b, c, d, e].push(f));
}

/// Objects and arrays hold what they are given in order, between commas; and a
/// missing text is `null`.
pub proof fn law_json_texts_are_put_together(xs: Seq<Seq<char>>, x: Seq<char>)
    ensures
        object_text(Seq::empty()) == "{"@ + "}"@,
        array_text(Seq::empty()) == "["@ + "]"@,
        object_text(seq![x]) == "{"@ + x + "}"@,
        array_text(seq![x]) == "["@ + x + "]"@,
        xs.len() > 0 ==> object_text(xs.push(x)) == object_text(xs).drop_last() + ","@ + x + "}"@,
        xs.len() > 0 ==> array_text(xs.push(x)) == array_text(xs).drop_last() + ","@ + x + "]"@,
        nullable(None) == "null"@,
        nullable(Some(x)) == quoted(x),
{
    reveal_strlit("}");
    reveal_strlit("]");
    let none = Seq::<Seq<char>>::empty();
    law_joined_adds_at_the_end(none, x, ","@);
    lemma_joined_one(x, ","@);
    law_joined_adds_at_the_end(xs, x, ","@);
    assert(object_text(none) =~= "{"@ + "}"@);
    assert(array_text(none) =~= "["@ + "]"@);
    assert("}"@.len() == 1 && "]"@.len() == 1);
    let j = joined(xs, ","@);
    assert(object_text(xs).drop_last() =~= "{"@ + j);
    assert(array_text(xs).drop_last() =~= "["@ + j);
    assert("{"@ + (j + ","@ + x) + "}"@ =~= "{"@ + j + ","@ + x + "}"@);
    assert("["@ + (j + ","@ + x) + "]"@ =~= "["@ + j + ","@ + x + "]"@);
}

/// What stands in a completion: its id, when it was made, the model, the answer
/// as one choice, and no counts.
pub proof fn law_completions_hold_the_answer(
    id: Seq<char>,
    model: Seq<char>,
    content: Seq<char>,
    created: u64,
)
    ensures
        ({
            let message = "{"@ + ("\"role\":"@ + quoted("assistant"@) + ","@ + ("\"content\":"@
                + quoted(content))) + "}"@;
            let choice = "{"@ + ("\"index\":"@ + decimal(0) + ","@ + ("\"message\":"@ + message)
                + ","@ + ("\"finish_reason\":"@ + quoted("stop"@))) + "}"@;
            let usage = "{"@ + ("\"prompt_tokens\":"@ + decimal(0) + ","@ + (
            "\"completion_tokens\":"@ + decimal(0)) + ","@ + ("\"total_tokens\":"@ + decimal(0)))
                + "}"@;
            answer_text(id, model, content, created) == "{"@ + ("\"id\":"@ + quoted(id) + ","@ + (
            "\"object\":"@ + quoted("chat.completion"@)) + ","@ + ("\"created\":"@ + decimal(
                created as nat,
            )) + ","@ + ("\"model\":"@ + quoted(model)) + ","@ + ("\"choices\":"@ + ("["@ + choice
                + "]"@)) + ","@ + ("\"usage\":"@ + usage)) + "}"@
        }),
{
    let message = "{"@ + ("\"role\":"@ + quoted("assistant"@) + ","@ + ("\"content\":"@ + quoted(
        content,
    ))) + "}"@;
    lemma_joined_two(
        "\"role\":"@ + quoted("assistant"@),
        "\"content\":"@ + quoted(content),
        ","@,
    );
    lemma_joined_three(
        "\"index\":"@ + decimal(0),
        "\"message\":"@ + message,
        "\"finish_reason\":"@ + quoted("stop"@),
        ","@,
    );
    lemma_joined_three(
        "\"prompt_tokens\":"@ + decimal(0),
        "\"completion_tokens\":"@ + decimal(0),
        "\"total_tokens\":"@ + decimal(0),
        ","@,
    );
    let choice = "{"@ + ("\"index\":"@ + decimal(0) + ","@ + ("\"message\":"@ + message) + ","@ + (
    "\"finish_reason\":"@ + quoted("stop"@))) + "}"@;
    let usage = "{"@ + ("\"prompt_tokens\":"@ + decimal(0) + ","@ + ("\"completion_tokens\":"@
        + decimal(0)) + ","@ + ("\"total_tokens\":"@ + decimal(0))) + "}"@;
    lemma_joined_one(choice, ","@);
    lemma_joined_six(
        "\"id\":"@ + quoted(id),
        "\"object\":"@ + quoted("chat.completion"@),
        "\"created\":"@ + decimal(created as nat),
        "\"model\":"@ + quoted(model),
        "\"choices\":"@ + ("["@ + choice + "]"@),
        "\"usage\":"@ + usage,
        ","@,
    );
}

/// What stands in a chunk: its id, when it was made, the model, and one choice
/// with what it adds and why it ends.
pub proof fn law_chunks_hold_what_they_add(
    id: Seq<char>,
    model: Seq<char>,
    created: u64,
    delta: Seq<Seq<char>>,
    finish: Option<Seq<char>>,
)
    ensures
        ({
            let end = match finish {
                Some(s) => quoted(s),
                None => "null"@,
            };
            let choice = "{"@ + ("\"index\":"@ + decimal(0) + ","@ + ("\"delta\":"@ + ("{"@
                + joined(delta, ","@) + "}"@)) + ","@ + ("\"finish_reason\":"@ + end)) + "}"@;
            payload_text(id, model, created, delta, finish) == "{"@ + ("\"id\":"@ + quoted(id)
                + ","@ + ("\"object\":"@ + quoted("chat.completion.chunk"@)) + ","@ + (
            "\"created\":"@ + decimal(created as nat)) + ","@ + ("\"model\":"@ + quoted(model))
                + ","@ + ("\"choices\":"@ + ("["@ + choice + "]"@))) + "}"@
        }),
{
    let end = match finish {
        Some(s) => quoted(s),
        None => "null"@,
    };
    let inner = "{"@ + joined(delta, ","@) + "}"@;
    lemma_joined_three(
        "\"index\":"@ + decimal(0),
        "\"delta\":"@ + inner,
        "\"finish_reason\":"@ + end,
        ","@,
    );
    let choice = "{"@ + ("\"index\":"@ + decimal(0) + ","@ + ("\"delta\":"@ + inner) + ","@ + (
    "\"finish_reason\":"@ + end)) + "}"@;
    lemma_joined_one(choice, ","@);
    lemma_joined_five(
        "\"id\":"@ + quoted(id),
        "\"object\":"@ + quoted("chat.completion.chunk"@),
        "\"created\":"@ + decimal(created as nat),
        "\"model\":"@ + quoted(model),
        "\"choices\":"@ + ("["@ + choice + "]"@),
        ","@,
    );
}

/// A streamed answer is four events: one with the role and no content, one with
/// the whole content, one with the reason for the end, and `[DONE]`.
pub proof fn law_streams_have_four_events(
    id: Seq<char>,
    model: Seq<char>,
    content: Seq<char>,
    created: u64,
)
    ensures
        ({
            let e = stream_events(id, model, content, created);
            &&& e.len() == 4
            &&& e[0] == "data: "@ + payload_text(
                id,
                model,
                created,
                seq!["\"role\":"@ + quoted("assistant"@), "\"content\":"@ + quoted(Seq::empty())],
                None,
            ) + "\n\n"@
            &&& e[1] == "data: "@ + payload_text(
                id,
                model,
                created,
                seq!["\"content\":"@ + quoted(content)],
                None,
            ) + "\n\n"@
            &&& e[2] == "data: "@ + payload_text(
                id,
                model,
                created,
                Seq::empty(),
                Some("stop"@),
            ) + "\n\n"@
            &&& e[3] == "data: [DONE]\n\n"@
        }),
{
}

/// What stands in a model list: every model in order, each with its id, when it
/// was made and whose it is.
pub proof fn law_model_lists_hold_every_model(
    l: ModelList,
    ids: Seq<Seq<char>>,
    created: u64,
    i: int,
)
    ensures
        ({
            let texts = Seq::new(
                ids.len(),
                |k: int|
                    "{"@ + ("\"id\":"@ + quoted(ids[k]) + ","@ + ("\"object\":"@ + quoted("model"@))
                        + ","@ + ("\"created\":"@ + decimal(created as nat)) + ","@ + (
                    "\"owned_by\":"@ + quoted("tmuxlet-server"@))) + "}"@,
            );
            model_list_text(ids, created) == "{"@ + ("\"object\":"@ + quoted("list"@) + ","@ + (
            "\"data\":"@ + ("["@ + joined(texts, ","@) + "]"@))) + "}"@
        }),
        lists_models(l, ids, created) ==> l.data@.len() == ids.len() && l.object@ == "list"@,
        lists_models(l, ids, created) && 0 <= i < ids.len() ==> l.data@[i].id@ == ids[i]
            && l.data@[i].object@ == "model"@ && l.data@[i].created == created
            && l.data@[i].owned_by@ == "tmuxlet-server"@,
{
    let f = |k: int|
        "{"@ + ("\"id\":"@ + quoted(ids[k]) + ","@ + ("\"object\":"@ + quoted("model"@)) + ","@ + (
        "\"created\":"@ + decimal(created as nat)) + ","@ + ("\"owned_by\":"@ + quoted(
            "tmuxlet-server"@,
        ))) + "}"@;
    let texts = Seq::new(ids.len(), f);
    let model_texts = ids.map_values(|id: Seq<char>| model_text(id, created));
    assert forall|k: int| 0 <= k < ids.len() implies texts[k] == #[trigger] model_texts[k] by {
        lemma_joined_four(
            "\"id\":"@ + quoted(ids[k]),
            "\"object\":"@ + quoted("model"@),
            "\"created\":"@ + decimal(created as nat),
            "\"owned_by\":"@ + quoted("tmuxlet-server"@),
            ","@,
        );
    }
    assert(texts =~= model_texts);
    lemma_joined_two(
        "\"object\":"@ + quoted("list"@),
        "\"data\":"@ + ("["@ + joined(texts, ","@) + "]"@),
        ","@,
    );
}

/// What stands in an error: its message, its type, no parameter, its code, and
/// the details one by one where it has them.
pub proof fn law_errors_hold_their_message(
    message: Seq<char>,
    kind: Seq<char>,
    code: Option<Seq<char>>,
    details: Seq<Seq<char>>,
)
    ensures
        ({
            let code_text = match code {
                Some(s) => quoted(s),
                None => "null"@,
            };
            let base = "\"message\":"@ + quoted(message) + ","@ + ("\"type\":"@ + quoted(kind))
                + ","@ + ("\"param\":"@ + "null"@) + ","@ + ("\"code\":"@ + code_text);
            let texts = Seq::new(details.len(), |k: int| quoted(details[k]));
            &&& error_text(message, kind, code) == "{"@ + ("\"error\":"@ + ("{"@ + base + "}"@))
                + "}"@
            &&& detailed_error_text(message, kind, code, details) == "{"@ + ("\"error\":"@ + ("{"@
                + (base + ","@ + ("\"details\":"@ + ("["@ + joined(texts, ","@) + "]"@))) + "}"@))
                + "}"@
        }),
{
    let code_text = nullable(code);
    let base = "\"message\":"@ + quoted(message) + ","@ + ("\"type\":"@ + quoted(kind)) + ","@ + (
    "\"param\":"@ + "null"@) + ","@ + ("\"code\":"@ + code_text);
    let texts = Seq::new(details.len(), |k: int| quoted(details[k]));
    assert(details.map_values(|d: Seq<char>| quoted(d)) =~= texts);
    lemma_joined_four(
        "\"message\":"@ + quoted(message),
        "\"type\":"@ + quoted(kind),
        "\"param\":"@ + "null"@,
        "\"code\":"@ + code_text,
        ","@,
    );
    let members = error_members(message, kind, None, code);
    assert(members =~= seq![
        "\"message\":"@ + quoted(message),
        "\"type\":"@ + quoted(kind),
        "\"param\":"@ + "null"@,
        "\"code\":"@ + code_text,
    ]);
    law_joined_adds_at_the_end(
        members,
        "\"details\":"@ + ("["@ + joined(texts, ","@) + "]"@),
        ","@,
    );
    lemma_joined_one("\"error\":"@ + ("{"@ + base + "}"@), ","@);
    lemma_joined_one(
        "\"error\":"@ + ("{"@ + (base + ","@ + ("\"details\":"@ + ("["@ + joined(texts, ","@)
            + "]"@))) + "}"@),
        ","@,
    );
}

/// A completion is written member by member, with every choice in order.
pub proof fn law_completions_are_written(c: ChatCompletion, i: int)
    ensures
        ({
            let choices = Seq::new(c.choices@.len(), |k: int| choice_text(c.choices@[k]));
            let usage = object_text(
                seq![
                    "\"prompt_tokens\":"@ + decimal(c.usage.prompt_tokens as nat),
                    "\"completion_tokens\":"@ + decimal(c.usage.completion_tokens as nat),
                    "\"total_tokens\":"@ + decimal(c.usage.total_tokens as nat),
                ],
            );
            completion_text(c) == "{"@ + ("\"id\":"@ + quoted(c.id@) + ","@ + ("\"object\":"@
                + quoted(c.object@)) + ","@ + ("\"created\":"@ + decimal(c.created as nat)) + ","@
                + ("\"model\":"@ + quoted(c.model@)) + ","@ + ("\"choices\":"@ + ("["@ + joined(
                choices,
                ","@,
            ) + "]"@)) + ","@ + ("\"usage\":"@ + usage)) + "}"@
        }),
        0 <= i < c.choices@.len() ==> choice_text(c.choices@[i]) == "{"@ + ("\"index\":"@ + decimal(
            c.choices@[i].index as nat,
        ) + ","@ + ("\"message\":"@ + ("{"@ + ("\"role\":"@ + quoted(c.choices@[i].message.role@)
            + ","@ + ("\"content\":"@ + quoted(c.choices@[i].message.content@))) + "}"@)) + ","@ + (
        "\"finish_reason\":"@ + quoted(c.choices@[i].finish_reason@))) + "}"@,
{
    let choices = Seq::new(c.choices@.len(), |k: int| choice_text(c.choices@[k]));
    assert(c.choices@.map_values(|x: Choice| choice_text(x)) =~= choices);
    let usage = object_text(
        seq![
            "\"prompt_tokens\":"@ + decimal(c.usage.prompt_tokens as nat),
            "\"completion_tokens\":"@ + decimal(c.usage.completion_tokens as nat),
            "\"total_tokens\":"@ + decimal(c.usage.total_tokens as nat),
        ],
    );
    lemma_joined_six(
        "\"id\":"@ + quoted(c.id@),
        "\"object\":"@ + quoted(c.object@),
        "\"created\":"@ + decimal(c.created as nat),
        "\"model\":"@ + quoted(c.model@),
        "\"choices\":"@ + ("["@ + joined(choices, ","@) + "]"@),
        "\"usage\":"@ + usage,
        ","@,
    );
    if 0 <= i < c.choices@.len() {
        let x = c.choices@[i];
        let message = "{"@ + ("\"role\":"@ + quoted(x.message.role@) + ","@ + ("\"content\":"@
            + quoted(x.message.content@))) + "}"@;
        lemma_joined_two(
            "\"role\":"@ + quoted(x.message.role@),
            "\"content\":"@ + quoted(x.message.content@),
            ","@,
        );
        lemma_joined_three(
            "\"index\":"@ + decimal(x.index as nat),
            "\"message\":"@ + message,
            "\"finish_reason\":"@ + quoted(x.finish_reason@),
            ","@,
        );
    }
}

/// A chunk is written member by member, with every choice in order; a delta
/// holds the role and the content that it has, and nothing else.
pub proof fn law_chunks_are_written(c: ChatChunk, x: ChunkChoice, d: Delta)
    ensures
        ({
            let choices = Seq::new(c.choices@.len(), |k: int| chunk_choice_text(c.choices@[k]));
            chunk_text(c) == "{"@ + ("\"id\":"@ + quoted(c.id@) + ","@ + ("\"object\":"@ + quoted(
                c.object@,
            )) + ","@ + ("\"created\":"@ + decimal(c.created as nat)) + ","@ + ("\"model\":"@
                + quoted(c.model@)) + ","@ + ("\"choices\":"@ + ("["@ + joined(choices, ","@)
                + "]"@))) + "}"@
        }),
        chunk_choice_text(x) == "{"@ + ("\"index\":"@ + decimal(x.index as nat) + ","@ + (
        "\"delta\":"@ + ("{"@ + joined(delta_members(x.delta), ","@) + "}"@)) + ","@ + (
        "\"finish_reason\":"@ + match x.finish_reason {
            Some(s) => quoted(s@),
            None => "null"@,
        })) + "}"@,
        d.role is None && d.content is None ==> delta_members(d).len() == 0,
        d.role is Some && d.content is None ==> delta_members(d) == seq![
            "\"role\":"@ + quoted((d.role->0)@),
        ],
        d.role is None && d.content is Some ==> delta_members(d) == seq![
            "\"content\":"@ + quoted((d.content->0)@),
        ],
        d.role is Some && d.content is Some ==> delta_members(d) == seq![
            "\"role\":"@ + quoted((d.role->0)@),
            "\"content\":"@ + quoted((d.content->0)@),
        ],
{
    let choices = Seq::new(c.choices@.len(), |k: int| chunk_choice_text(c.choices@[k]));
    assert(c.choices@.map_values(|y: ChunkChoice| chunk_choice_text(y)) =~= choices);
    lemma_joined_five(
        "\"id\":"@ + quoted(c.id@),
        "\"object\":"@ + quoted(c.object@),
        "\"created\":"@ + decimal(c.created as nat),
        "\"model\":"@ + quoted(c.model@),
        "\"choices\":"@ + ("["@ + joined(choices, ","@) + "]"@),
        ","@,
    );
    lemma_joined_three(
        "\"index\":"@ + decimal(x.index as nat),
        "\"delta\":"@ + ("{"@ + joined(delta_members(x.delta), ","@) + "}"@),
        "\"finish_reason\":"@ + nullable(opt_view(x.finish_reason)),
        ","@,
    );
    if d.role is None && d.content is Some {
        assert(delta_members(d) =~= seq!["\"content\":"@ + quoted((d.content->0)@)]);
    }
    if d.role is Some && d.content is Some {
        assert(delta_members(d) =~= seq![
            "\"role\":"@ + quoted((d.role->0)@),
            "\"content\":"@ + quoted((d.content->0)@),
        ]);
    }
}

/// Models and errors are written with the members that they have.
pub proof fn law_records_are_written(m: ModelInfo, e: ApiError)
    ensures
        info_text(m) == "{"@ + ("\"id\":"@ + quoted(m.id@) + ","@ + ("\"object\":"@ + quoted(
            m.object@,
        )) + ","@ + ("\"created\":"@ + decimal(m.created as nat)) + ","@ + ("\"owned_by\":"@
            + quoted(m.owned_by@))) + "}"@,
        ({
            let param = match e.param {
                Some(s) => quoted(s@),
                None => "null"@,
            };
            let code = match e.code {
                Some(s) => quoted(s@),
                None => "null"@,
            };
            let base = seq![
                "\"message\":"@ + quoted(e.message@),
                "\"type\":"@ + quoted(e.error_type@),
                "\"param\":"@ + param,
                "\"code\":"@ + code,
            ];
            &&& e.details is None ==> api_error_members(e) == base
            &&& e.details matches Some(d) ==> api_error_members(e) == base.push(
                "\"details\":"@ + ("["@ + joined(
                    Seq::new(d@.len(), |k: int| quoted(d@[k]@)),
                    ","@,
                ) + "]"@),
            )
        }),
        envelope_text(api_error_members(e)) == "{"@ + ("\"error\":"@ + ("{"@ + joined(
            api_error_members(e),
            ","@,
        ) + "}"@)) + "}"@,
{
    lemma_joined_four(
        "\"id\":"@ + quoted(m.id@),
        "\"object\":"@ + quoted(m.object@),
        "\"created\":"@ + decimal(m.created as nat),
        "\"owned_by\":"@ + quoted(m.owned_by@),
        ","@,
    );
    lemma_joined_one("\"error\":"@ + ("{"@ + joined(api_error_members(e), ","@) + "}"@), ","@);
    if let Some(d) = e.details {
        assert(views(d@).map_values(|x: Seq<char>| quoted(x)) =~= Seq::new(
            d@.len(),
            |k: int| quoted(d@[k]@),
        ));
    }
}

} // verus!
