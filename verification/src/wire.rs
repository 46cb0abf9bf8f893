//! What goes over the wire to a model provider: the JSON body and URL of a
//! chat request for each provider, and the reading of one line of a streamed
//! (server-sent events) reply into text, token counts and the end of the
//! stream. Sending and receiving are the platform layer's.
use vstd::prelude::*;
use crate::json::{
    get, json_parse, json_str, lemma_trees_of, members1, members2, members3, members4, members_of,
    parse_json, str_member, trees_of, Json, JsonTree,
};
use crate::llm::{
    clean_base, google_model, google_role, merge_adjacent, merge_spec, msgs_view, pairs_view,
    provider_name_spec, trim_trailing_slashes, Config, Msg, Provider,
};
use crate::text::{chars_eq_str, chars_of, extend_str, slice_chars, starts_with_str, string_of, trim, trim_chars};

verus! {

broadcast use vstd::string::group_string_axioms;

// ---------------------------------------------------------------------------
// Request bodies
// ---------------------------------------------------------------------------

/// A chat message object.
pub open spec fn message_tree(role: Seq<char>, text: Seq<char>) -> JsonTree {
    JsonTree::Object(seq![("content"@, JsonTree::Str(text)), ("role"@, JsonTree::Str(role))])
}

/// The merged history as chat message objects.
pub open spec fn message_trees(ps: Seq<(Seq<char>, Seq<char>)>) -> Seq<JsonTree>
    decreases ps.len(),
{
    if ps.len() == 0 {
        Seq::empty()
    } else {
        message_trees(ps.drop_last()).push(message_tree(ps.last().0, ps.last().1))
    }
}

/// The merged history as Gemini `contents` items.
pub open spec fn content_trees(ps: Seq<(Seq<char>, Seq<char>)>) -> Seq<JsonTree>
    decreases ps.len(),
{
    if ps.len() == 0 {
        Seq::empty()
    } else {
        content_trees(ps.drop_last()).push(JsonTree::Object(seq![
            ("parts"@, JsonTree::Array(seq![JsonTree::Object(seq![("text"@, JsonTree::Str(ps.last().1))])])),
            ("role"@, JsonTree::Str(if ps.last().0 == "assistant"@ { "model"@ } else { "user"@ })),
        ]))
    }
}

/// The body of an OpenAI-style chat completion request: the system context
/// first, then the merged history; usage is asked for when OpenAI itself
/// streams.
pub open spec fn openai_body_spec(config: Config, history: Seq<(Seq<char>, Seq<char>)>, system: Seq<char>, stream: bool) -> JsonTree {
    let messages = JsonTree::Array(seq![message_tree("system"@, system)] + message_trees(merge_spec(history)));
    if stream && config.provider == Provider::OpenAI {
        JsonTree::Object(seq![
            ("messages"@, messages),
            ("model"@, JsonTree::Str(config.model@)),
            ("stream"@, JsonTree::Bool(stream)),
            ("stream_options"@, JsonTree::Object(seq![("include_usage"@, JsonTree::Bool(true))])),
        ])
    } else {
        JsonTree::Object(seq![
            ("messages"@, messages),
            ("model"@, JsonTree::Str(config.model@)),
            ("stream"@, JsonTree::Bool(stream)),
        ])
    }
}

/// The body of an Anthropic messages request.
pub open spec fn anthropic_body_spec(config: Config, history: Seq<(Seq<char>, Seq<char>)>, system: Seq<char>, stream: bool) -> JsonTree {
    JsonTree::Object(seq![
        ("max_tokens"@, JsonTree::Number(Some(4096u64), "4096"@)),
        ("messages"@, JsonTree::Array(message_trees(merge_spec(history)))),
        ("model"@, JsonTree::Str(config.model@)),
        ("stream"@, JsonTree::Bool(stream)),
        ("system"@, JsonTree::Str(system)),
    ])
}

/// The body of a Gemini `generateContent` request.
pub open spec fn google_body_spec(history: Seq<(Seq<char>, Seq<char>)>, system: Seq<char>) -> JsonTree {
    JsonTree::Object(seq![
        ("contents"@, JsonTree::Array(content_trees(merge_spec(history)))),
        ("systemInstruction"@, JsonTree::Object(seq![
            ("parts"@, JsonTree::Array(seq![JsonTree::Object(seq![("text"@, JsonTree::Str(system))])])),
        ])),
    ])
}

/// The request body for the configured provider.
pub open spec fn request_body_spec(config: Config, history: Seq<(Seq<char>, Seq<char>)>, system: Seq<char>, stream: bool) -> JsonTree {
    match config.provider {
        Provider::Anthropic => anthropic_body_spec(config, history, system, stream),
        Provider::Google => google_body_spec(history, system),
        _ => openai_body_spec(config, history, system, stream),
    }
}

fn message_json(role: &str, text: &str) -> (r: Json)
    ensures
        r@ == message_tree(role@, text@),
{
    Json::Object(members2("content", json_str(text), "role", json_str(role)))
}

/// The merged history as message objects (`google` for Gemini items).
fn history_items(history: &[Msg], google: bool) -> (r: Vec<Json>)
    ensures
        trees_of(r@) == if google {
            content_trees(merge_spec(msgs_view(history@)))
        } else {
            message_trees(merge_spec(msgs_view(history@)))
        },
{
    let merged = merge_adjacent(history);
    let ghost ps = pairs_view(merged@);
    assert(ps == merge_spec(msgs_view(history@)));
    let mut out: Vec<Json> = Vec::new();
    let mut i: usize = 0;
    while i < merged.len()
        invariant
            i <= merged@.len(),
            ps == pairs_view(merged@),
            trees_of(out@) == if google { content_trees(ps.take(i as int)) } else { message_trees(ps.take(i as int)) },
        decreases merged@.len() - i,
    {
        assert(ps.take(i + 1).drop_last() =~= ps.take(i as int));
        assert(ps.take(i + 1).last() == (merged@[i as int].0@, merged@[i as int].1@));
        let role = merged[i].0;
        let text = merged[i].1.as_str();
        let item = if google {
            let part = Json::Object(members1("text", json_str(text)));
            let parts = vec![part];
            proof {
                lemma_trees_of(parts@);
                assert(trees_of(parts@) =~= seq![part@]);
            }
            Json::Object(members2("parts", Json::Array(parts), "role", json_str(google_role(role))))
        } else {
            message_json(role, text)
        };
        let ghost before = out@;
        out.push(item);
        proof {
            lemma_trees_of(out@);
            lemma_trees_of(before);
            assert(out@.drop_last() =~= before);
            assert(trees_of(out@) =~= trees_of(before).push(item@));
        }
        i += 1;
    }
    assert(ps.take(i as int) =~= ps);
    out
}

/// The JSON body of a chat request to the configured provider, with
/// `system_context` as the system prompt and `history` merged so roles
/// alternate.
pub fn request_body(config: &Config, history: &[Msg], system_context: &str, stream: bool) -> (r: Json)
    ensures
        r@ == request_body_spec(*config, msgs_view(history@), system_context@, stream),
{
    match config.provider {
        Provider::Anthropic => {
            let items = history_items(history, false);
            Json::Object(vec_members5(
                "max_tokens", Json::Number(Some(4096), String::from_str("4096")),
                "messages", Json::Array(items),
                "model", json_str(config.model.as_str()),
                "stream", Json::Bool(stream),
                "system", json_str(system_context),
            ))
        },
        Provider::Google => {
            let items = history_items(history, true);
            let part = Json::Object(members1("text", json_str(system_context)));
            let parts = vec![part];
            proof {
                lemma_trees_of(parts@);
                assert(trees_of(parts@) =~= seq![part@]);
            }
            Json::Object(members2(
                "contents", Json::Array(items),
                "systemInstruction", Json::Object(members1("parts", Json::Array(parts))),
            ))
        },
        _ => {
            let mut messages = vec![message_json("system", system_context)];
            let rest = history_items(history, false);
            let ghost first = messages@;
            let ghost tail = rest@;
            proof {
                lemma_trees_of(first);
                lemma_trees_of(tail);
            }
            let mut rest = rest;
            messages.append(&mut rest);
            proof {
                lemma_trees_of(messages@);
                assert(messages@ =~= first + tail);
                assert(trees_of(messages@) =~= seq![message_tree("system"@, system_context@)]
                    + message_trees(merge_spec(msgs_view(history@))));
            }
            if stream && config.provider == Provider::OpenAI {
                Json::Object(members4(
                    "messages", Json::Array(messages),
                    "model", json_str(config.model.as_str()),
                    "stream", Json::Bool(stream),
                    "stream_options", Json::Object(members1("include_usage", Json::Bool(true))),
                ))
            } else {
                Json::Object(members3(
                    "messages", Json::Array(messages),
                    "model", json_str(config.model.as_str()),
                    "stream", Json::Bool(stream),
                ))
            }
        },
    }
}

fn vec_members5(k1: &str, v1: Json, k2: &str, v2: Json, k3: &str, v3: Json, k4: &str, v4: Json, k5: &str, v5: Json) -> (r: Vec<(String, Json)>)
    ensures
        members_of(r@) == seq![(k1@, v1@), (k2@, v2@), (k3@, v3@), (k4@, v4@), (k5@, v5@)],
{
    let r = vec![
        (String::from_str(k1), v1),
        (String::from_str(k2), v2),
        (String::from_str(k3), v3),
        (String::from_str(k4), v4),
        (String::from_str(k5), v5),
    ];
    proof {
        crate::json::lemma_members_of(r@);
        assert(members_of(r@) =~= seq![(k1@, v1@), (k2@, v2@), (k3@, v3@), (k4@, v4@), (k5@, v5@)]);
    }
    r
}

/// The URL a chat request goes to.
pub open spec fn request_url_spec(config: Config, stream: bool) -> Seq<char> {
    let base = trim_trailing_slashes(config.base_url@);
    match config.provider {
        Provider::Anthropic => base + "/messages"@,
        Provider::Google => base + "/models/"@ + (if "models/"@.is_prefix_of(config.model@) {
            config.model@.skip(7)
        } else {
            config.model@
        }) + ":"@ + (if stream { "streamGenerateContent?alt=sse"@ } else { "generateContent"@ }),
        _ => base + "/chat/completions"@,
    }
}

/// The URL of a chat request to the configured provider.
pub fn request_url(config: &Config, stream: bool) -> (r: String)
    ensures
        r@ == request_url_spec(*config, stream),
{
    let mut v = chars_of(clean_base(config.base_url.as_str()));
    match config.provider {
        Provider::Anthropic => extend_str(&mut v, "/messages"),
        Provider::Google => {
            extend_str(&mut v, "/models/");
            extend_str(&mut v, google_model(config.model.as_str()));
            extend_str(&mut v, ":");
            if stream {
                extend_str(&mut v, "streamGenerateContent?alt=sse");
            } else {
                extend_str(&mut v, "generateContent");
            }
        },
        _ => extend_str(&mut v, "/chat/completions"),
    }
    string_of(v.as_slice())
}

// ---------------------------------------------------------------------------
// Reading JSON
// ---------------------------------------------------------------------------

/// The member `key` of an optional value.
pub open spec fn child(o: Option<JsonTree>, key: Seq<char>) -> Option<JsonTree> {
    match o {
        Some(t) => get(t, key),
        None => None,
    }
}

/// The first element of an array, or the member `"0"` of an object (a JSON
/// pointer step `0`).
pub open spec fn step0(o: Option<JsonTree>) -> Option<JsonTree> {
    match o {
        Some(JsonTree::Array(a)) => if a.len() > 0 { Some(a[0]) } else { None },
        Some(t) => get(t, "0"@),
        None => None,
    }
}

pub open spec fn text_of(o: Option<JsonTree>) -> Option<Seq<char>> {
    match o {
        Some(JsonTree::Str(s)) => Some(s),
        _ => None,
    }
}

pub open spec fn count_of(o: Option<JsonTree>) -> Option<u64> {
    match o {
        Some(JsonTree::Number(n, _)) => n,
        _ => None,
    }
}

fn child_of<'a>(o: Option<&'a Json>, key: &str) -> (r: Option<&'a Json>)
    ensures
        match r {
            Some(v) => child(match o { Some(x) => Some(x@), None => None }, key@) == Some(v@),
            None => child(match o { Some(x) => Some(x@), None => None }, key@) is None,
        },
{
    match o {
        Some(x) => x.get(key),
        None => None,
    }
}

fn step0_of<'a>(o: Option<&'a Json>) -> (r: Option<&'a Json>)
    ensures
        match r {
            Some(v) => step0(match o { Some(x) => Some(x@), None => None }) == Some(v@),
            None => step0(match o { Some(x) => Some(x@), None => None }) is None,
        },
{
    match o {
        Some(x) => match x.as_array() {
            Some(a) => {
                if a.len() > 0 {
                    Some(&a[0])
                } else {
                    None
                }
            },
            None => x.get("0"),
        },
        None => None,
    }
}

fn text_in(o: Option<&Json>) -> (r: Option<String>)
    ensures
        match r {
            Some(s) => text_of(match o { Some(x) => Some(x@), None => None }) == Some(s@),
            None => text_of(match o { Some(x) => Some(x@), None => None }) is None,
        },
{
    match o {
        Some(x) => match x.as_str() {
            Some(s) => Some(String::from_str(s)),
            None => None,
        },
        None => None,
    }
}

fn count_in(o: Option<&Json>) -> (r: Option<u64>)
    ensures
        r == count_of(match o { Some(x) => Some(x@), None => None }),
{
    match o {
        Some(x) => x.as_u64(),
        None => None,
    }
}

// ---------------------------------------------------------------------------
// Streamed replies
// ---------------------------------------------------------------------------

/// Token counts a reply reports: input, output and total, each when given.
pub type Counts = (Option<u64>, Option<u64>, Option<u64>);

/// The counts in a usage object, under the provider's key names; the total
/// is `total_tokens`, or `totalTokenCount` when there is no `total_tokens`.
pub open spec fn counts_spec(usage: Option<JsonTree>, input: Seq<char>, output: Seq<char>) -> Option<Counts> {
    match usage {
        None => None,
        Some(v) => Some((
            count_of(get(v, input)),
            count_of(get(v, output)),
            count_of(if get(v, "total_tokens"@) is Some { get(v, "total_tokens"@) } else { get(v, "totalTokenCount"@) }),
        )),
    }
}

/// What one event of a stream carries: text to add, token counts, and
/// whether the stream is over.
pub struct StreamEvent {
    pub text: Option<String>,
    pub counts: Option<Counts>,
    pub done: bool,
}

pub open spec fn event_view(e: StreamEvent) -> (Option<Seq<char>>, Option<Counts>, bool) {
    (match e.text { Some(t) => Some(t@), None => None }, e.counts, e.done)
}

/// What a parsed event means for `provider`.
pub open spec fn event_spec(provider: Provider, ev: JsonTree) -> (Option<Seq<char>>, Option<Counts>, bool) {
    match provider {
        Provider::Anthropic => {
            let ty = match str_member(ev, "type"@) {
                Some(t) => t,
                None => Seq::empty(),
            };
            if ty == "content_block_delta"@ {
                (text_of(child(get(ev, "delta"@), "text"@)), None, false)
            } else if ty == "message_start"@ {
                (None, counts_spec(child(get(ev, "message"@), "usage"@), "input_tokens"@, "output_tokens"@), false)
            } else if ty == "message_delta"@ {
                (None, counts_spec(get(ev, "usage"@), "input_tokens"@, "output_tokens"@), false)
            } else if ty == "message_stop"@ {
                (None, None, true)
            } else {
                (None, None, false)
            }
        },
        Provider::Google => (
            text_of(child(step0(child(child(step0(get(ev, "candidates"@)), "content"@), "parts"@)), "text"@)),
            counts_spec(get(ev, "usageMetadata"@), "promptTokenCount"@, "candidatesTokenCount"@),
            false,
        ),
        _ => (
            text_of(child(child(step0(get(ev, "choices"@)), "delta"@), "content"@)),
            counts_spec(get(ev, "usage"@), "prompt_tokens"@, "completion_tokens"@),
            false,
        ),
    }
}

/// What a line of a streamed reply means: lines other than `data:` lines
/// carry nothing; `[DONE]` ends the stream; an event with an error message
/// fails with it, as does data that is not JSON.
pub open spec fn stream_line_spec(provider: Provider, line: Seq<char>) -> Result<(Option<Seq<char>>, Option<Counts>, bool), Seq<char>> {
    if !"data:"@.is_prefix_of(line) {
        Ok((None, None, false))
    } else {
        let data = trim(line.skip("data:"@.len() as int));
        if data == "[DONE]"@ {
            Ok((None, None, true))
        } else {
            match json_parse(data) {
                Err(e) => Err(e),
                Ok(ev) => match text_of(child(get(ev, "error"@), "message"@)) {
                    Some(m) => Err(m),
                    None => Ok(event_spec(provider, ev)),
                },
            }
        }
    }
}

fn counts_in(usage: Option<&Json>, input: &str, output: &str) -> (r: Option<Counts>)
    ensures
        r == counts_spec(match usage { Some(x) => Some(x@), None => None }, input@, output@),
{
    match usage {
        None => None,
        Some(v) => {
            let total = match v.get("total_tokens") {
                Some(t) => t.as_u64(),
                None => count_in(v.get("totalTokenCount")),
            };
            Some((count_in(v.get(input)), count_in(v.get(output)), total))
        },
    }
}

fn event_of(provider: Provider, ev: &Json) -> (r: StreamEvent)
    ensures
        event_view(r) == event_spec(provider, ev@),
{
    match provider {
        Provider::Anthropic => {
            let ty = match ev.get("type") {
                Some(t) => match t.as_str() {
                    Some(s) => s,
                    None => "",
                },
                None => "",
            };
            proof {
                reveal_strlit("");
                assert(ty@ =~= match str_member(ev@, "type"@) {
                    Some(t) => t,
                    None => Seq::<char>::empty(),
                });
            }
            let c = chars_of(ty);
            let x = c.as_slice();
            if chars_eq_str(x, "content_block_delta") {
                StreamEvent { text: text_in(child_of(ev.get("delta"), "text")), counts: None, done: false }
            } else if chars_eq_str(x, "message_start") {
                let usage = child_of(ev.get("message"), "usage");
                StreamEvent { text: None, counts: counts_in(usage, "input_tokens", "output_tokens"), done: false }
            } else if chars_eq_str(x, "message_delta") {
                StreamEvent { text: None, counts: counts_in(ev.get("usage"), "input_tokens", "output_tokens"), done: false }
            } else if chars_eq_str(x, "message_stop") {
                StreamEvent { text: None, counts: None, done: true }
            } else {
                StreamEvent { text: None, counts: None, done: false }
            }
        },
        Provider::Google => {
            let parts = child_of(child_of(step0_of(ev.get("candidates")), "content"), "parts");
            let text = text_in(child_of(step0_of(parts), "text"));
            let counts = counts_in(ev.get("usageMetadata"), "promptTokenCount", "candidatesTokenCount");
            StreamEvent { text, counts, done: false }
        },
        _ => {
            let text = text_in(child_of(child_of(step0_of(ev.get("choices")), "delta"), "content"));
            let counts = counts_in(ev.get("usage"), "prompt_tokens", "completion_tokens");
            StreamEvent { text, counts, done: false }
        },
    }
}

/// Read one line of a streamed reply from `provider`.
pub fn stream_line(provider: Provider, line: &str) -> (r: Result<StreamEvent, String>)
    ensures
        match r {
            Ok(e) => stream_line_spec(provider, line@) == Ok::<(Option<Seq<char>>, Option<Counts>, bool), Seq<char>>(event_view(e)),
            Err(m) => stream_line_spec(provider, line@) == Err::<(Option<Seq<char>>, Option<Counts>, bool), Seq<char>>(m@),
        },
{
    let c = chars_of(line);
    if !starts_with_str(c.as_slice(), "data:") {
        return Ok(StreamEvent { text: None, counts: None, done: false });
    }
    let n = "data:".unicode_len();
    let rest = slice_chars(c.as_slice(), n, c.len());
    let data = trim_chars(rest.as_slice());
    if chars_eq_str(data.as_slice(), "[DONE]") {
        return Ok(StreamEvent { text: None, counts: None, done: true });
    }
    let ds = string_of(data.as_slice());
    let ev = match parse_json(ds.as_str()) {
        Ok(v) => v,
        Err(e) => return Err(e),
    };
    if let Some(m) = text_in(child_of(ev.get("error"), "message")) {
        return Err(m);
    }
    Ok(event_of(provider, &ev))
}

/// The id of the first model a `/models` listing names (the model LM Studio
/// has loaded).
pub fn first_model_id(listing: &Json) -> (r: Result<String, String>)
    ensures
        match text_of(child(match get(listing@, "data"@) {
            Some(JsonTree::Array(a)) => if a.len() > 0 { Some(a[0]) } else { None },
            _ => None,
        }, "id"@)) {
            Some(id) => r matches Ok(s) && s@ == id,
            None => r matches Err(e) && e@ == "no loaded models found; load a model in LM Studio first"@,
        },
{
    let first = match listing.get("data") {
        Some(d) => match d.as_array() {
            Some(a) => {
                if a.len() > 0 {
                    Some(&a[0])
                } else {
                    None
                }
            },
            None => None,
        },
        None => None,
    };
    match text_in(child_of(first, "id")) {
        Some(s) => Ok(s),
        None => Err(String::from_str("no loaded models found; load a model in LM Studio first")),
    }
}

} // verus!
