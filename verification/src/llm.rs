//! Talking to the language model: the request it gets and what is read from its answer.
use vstd::prelude::*;

use crate::endpoint::{chat_completions_endpoint, completions_outcome, Endpoint, UrlView};
use crate::extraction::{
    extraction_spec, first_json_object_spec, normalized_json_record, normalized_record_spec, parse_extracted_expense,
    ExtractedExpense,
};
use crate::json::{
    entry_pos, lemma_view_array, lemma_view_entries, lemma_view_items, opt_view, serde_json_parse,
    json_string_list, string_list_json, string_views, view_entries, view_items, Json, JsonView,
};
use crate::ocr::opt_str;
use crate::recognition::{request_timeout_seconds, LlmProfile, EXTRACTION_SYSTEM_PROMPT};
use crate::text::{
    chars_of, join_lines, join_with_newlines, owned, push_str, trim, trim_nonempty, trim_spec, trimmed_nonempty, views_of,
};

verus! {

/// The keys under which an object part of an answer may hold its text, in the order
/// they are tried.
pub open spec fn content_keys() -> Seq<Seq<char>> {
    seq!["text"@, "content"@, "output_text"@, "value"@]
}

/// The text of one part of an answer: a non-blank string (trimmed); the texts of an
/// array's parts, one per line, unless all blank; for an object, the first of
/// `content_keys` that holds a text.
pub open spec fn content_text(v: JsonView) -> Option<Seq<char>>
    decreases v, 0nat,
{
    match v {
        JsonView::String(t) => trimmed_nonempty(t),
        JsonView::Array(items) => {
            let t = join_lines(content_texts(items));
            if trim_spec(t).len() == 0 {
                None
            } else {
                Some(t)
            }
        },
        JsonView::Object(entries) => key_text(entries, content_keys()),
        _ => None,
    }
}

/// The texts of the parts that have one, in order.
pub open spec fn content_texts(items: Seq<JsonView>) -> Seq<Seq<char>>
    decreases items, 0nat,
{
    if items.len() == 0 {
        Seq::empty()
    } else {
        let init = items.subrange(0, items.len() - 1);
        match content_text(items[items.len() - 1]) {
            Some(t) => content_texts(init).push(t),
            None => content_texts(init),
        }
    }
}

/// The text under the first of `keys` whose entry has one.
pub open spec fn key_text(entries: Seq<(Seq<char>, JsonView)>, keys: Seq<Seq<char>>) -> Option<Seq<char>>
    decreases entries, keys.len(),
{
    if keys.len() == 0 {
        None
    } else {
        let here = match entry_pos(entries, keys[0]) {
            Some(i) => if 0 <= i < entries.len() {
                content_text(entries[i].1)
            } else {
                None
            },
            None => None,
        };
        if here is Some {
            here
        } else {
            key_text(entries, keys.drop_first())
        }
    }
}


/// The position of the first entry named `key`.
fn find_entry(entries: &Vec<(String, Json)>, key: &str) -> (r: Option<usize>)
    ensures
        match r {
            Some(i) => i < entries.len() && entry_pos(view_entries(entries@), key@) == Some(i as int),
            None => entry_pos(view_entries(entries@), key@) is None,
        },
{
    proof {
        lemma_view_entries(entries@);
    }
    let ghost es = view_entries(entries@);
    let mut i: usize = 0;
    while i < entries.len()
        invariant
            es == view_entries(entries@),
            es.len() == entries@.len(),
            forall|j: int| 0 <= j < entries@.len() ==> #[trigger] es[j] == (entries@[j].0@, entries@[j].1@),
            i <= entries.len(),
            forall|j: int| 0 <= j < i ==> #[trigger] es[j].0 != key@,
        decreases entries.len() - i,
    {
        assert(es[i as int].0 == entries@[i as int].0@);
        if crate::text::same_text(entries[i].0.as_str(), key) {
            proof {
                crate::json::lemma_first_entry_pos(es, key@, i as int);
            }
            return Some(i);
        }
        i = i + 1;
    }
    proof {
        if exists|j: int| 0 <= j < es.len() && #[trigger] es[j].0 == key@ {
            let j = choose|j: int| 0 <= j < es.len() && #[trigger] es[j].0 == key@;
            assert(es[j].0 != key@);
        }
    }
    None
}

/// The text of one part of a model answer (see `content_text`).
#[verifier::rlimit(80)]
pub fn content_value_text(value: &Json) -> (r: Option<String>)
    ensures
        opt_str(r) == content_text(value@),
    decreases value,
{
    match value {
        Json::String(t) => trim_nonempty(t.as_str()),
        Json::Array(items) => {
            proof {
                lemma_view_items(items@);
            }
            let ghost iv = view_items(items@);
            let mut parts: Vec<String> = Vec::new();
            let mut i: usize = 0;
            while i < items.len()
                invariant
                    *value == Json::Array(*items),
                    iv == view_items(items@),
                    iv.len() == items@.len(),
                    forall|j: int| 0 <= j < items@.len() ==> #[trigger] iv[j] == items@[j]@,
                    i <= items.len(),
                    views_of(parts@) == content_texts(iv.take(i as int)),
                decreases items.len() - i,
            {
                proof {
                    assert(decreases_to!(*value => value->Array_0));
                    assert(decreases_to!(*items => items[i as int]));
                }
                assert(iv.take(i + 1).subrange(0, i as int) =~= iv.take(i as int));
                assert(iv.take(i + 1)[i as int] == items@[i as int]@);
                match content_value_text(&items[i]) {
                    Some(t) => {
                        let ghost before = views_of(parts@);
                        parts.push(t);
                        assert(views_of(parts@) =~= before.push(t@));
                    },
                    None => {},
                }
                i = i + 1;
            }
            assert(iv.take(items.len() as int) =~= iv);
            let joined = join_with_newlines(&parts);
            if trim(joined.as_str()).is_empty() {
                None
            } else {
                Some(joined)
            }
        },
        Json::Object(entries) => {
            proof {
                lemma_view_entries(entries@);
            }
            let ghost es = view_entries(entries@);
            let keys: [&str; 4] = ["text", "content", "output_text", "value"];
            let ghost all = content_keys();
            assert(all.skip(0) =~= all);
            let mut k: usize = 0;
            while k < 4
                invariant
                    *value == Json::Object(*entries),
                    es == view_entries(entries@),
                    es.len() == entries@.len(),
                    forall|j: int| 0 <= j < entries@.len() ==> #[trigger] es[j] == (entries@[j].0@, entries@[j].1@),
                    all == content_keys(),
                    keys@ == seq!["text", "content", "output_text", "value"],
                    k <= 4,
                    key_text(es, all) == key_text(es, all.skip(k as int)),
                decreases 4 - k,
            {
                let ghost rest = all.skip(k as int);
                assert(rest[0] == keys@[k as int]@);
                assert(rest.drop_first() =~= all.skip(k + 1));
                match find_entry(entries, keys[k]) {
                    Some(i) => {
                        proof {
                            assert(decreases_to!(*value => value->Object_0));
                            assert(decreases_to!(*entries => entries[i as int]));
                            assert(decreases_to!(entries[i as int] => entries[i as int].1));
                        }
                        let found = content_value_text(&entries[i].1);
                        if found.is_some() {
                            return found;
                        }
                    },
                    None => {},
                }
                k = k + 1;
            }
            assert(all.skip(4) =~= Seq::<Seq<char>>::empty());
            None
        },
        _ => None,
    }
}


/// The entry `key` of an optional value.
pub open spec fn get_in(o: Option<JsonView>, key: Seq<char>) -> Option<JsonView> {
    match o {
        Some(v) => v.get(key),
        None => None,
    }
}

/// The JSON-pointer step `0`: an object's entry named `0`, or an array's first element.
pub open spec fn first_of(o: Option<JsonView>) -> Option<JsonView> {
    match o {
        Some(JsonView::Object(_)) => o->0.get("0"@),
        Some(JsonView::Array(_)) => o->0.at(0),
        _ => None,
    }
}

/// The text of an optional part of an answer.
pub open spec fn text_of(o: Option<JsonView>) -> Option<Seq<char>> {
    match o {
        Some(v) => content_text(v),
        None => None,
    }
}

/// The text of a chat-completion answer: `/choices/0/message/content`, else the legacy
/// `/choices/0/text`, else `output_text`, whichever first holds a text. Other fields,
/// such as a reasoning trace, are never read.
pub open spec fn llm_content_spec(response: JsonView) -> Option<Seq<char>> {
    let choice = first_of(response.get("choices"@));
    let message = text_of(get_in(get_in(choice, "message"@), "content"@));
    let legacy = text_of(get_in(choice, "text"@));
    let output = text_of(response.get("output_text"@));
    if message is Some {
        message
    } else if legacy is Some {
        legacy
    } else {
        output
    }
}

/// The entry `key` of an optional value.
fn get_in_ref<'a>(o: Option<&'a Json>, key: &str) -> (r: Option<&'a Json>)
    ensures
        opt_view(r) == get_in(opt_view(o), key@),
{
    match o {
        Some(v) => v.get(key),
        None => None,
    }
}

/// The JSON-pointer step `0` (see `first_of`).
fn first_of_ref<'a>(o: Option<&'a Json>) -> (r: Option<&'a Json>)
    ensures
        opt_view(r) == first_of(opt_view(o)),
{
    match o {
        Some(v) => {
            match v {
                Json::Object(_) => v.get("0"),
                Json::Array(_) => v.at(0),
                _ => None,
            }
        },
        None => None,
    }
}

/// The text of an optional part of an answer.
fn text_of_ref(o: Option<&Json>) -> (r: Option<String>)
    ensures
        opt_str(r) == text_of(opt_view(o)),
{
    match o {
        Some(v) => content_value_text(v),
        None => None,
    }
}

/// The text of a chat-completion answer (see `llm_content_spec`).
pub fn extract_llm_content(response: &Json) -> (r: Option<String>)
    ensures
        opt_str(r) == llm_content_spec(response@),
{
    let choice = first_of_ref(response.get("choices"));
    let message = text_of_ref(get_in_ref(get_in_ref(choice, "message"), "content"));
    if message.is_some() {
        return message;
    }
    let legacy = text_of_ref(get_in_ref(choice, "text"));
    if legacy.is_some() {
        return legacy;
    }
    text_of_ref(response.get("output_text"))
}


/// The dictionary of reasons as a JSON array of strings.
pub open spec fn reason_json_spec(reasons: Seq<String>) -> Seq<char> {
    json_string_list(string_views(reasons))
}

/// The reasons as a JSON array of strings.
pub fn reason_dictionary_json(reasons: &[String]) -> (r: String)
    ensures
        r@ == reason_json_spec(reasons@),
{
    match string_list_json(reasons) {
        Some(t) => t,
        None => "[]".to_string(),
    }
}

/// The first request's prompt: the dictionary, the OCR text, and the shape of the answer.
pub open spec fn user_prompt_spec(reason_json: Seq<char>, ocr_text: Seq<char>) -> Seq<char> {
    "事由字典："@ + reason_json + "\n\nOCR 原文：\n"@ + ocr_text
        + "\n\n严格按此结构返回 JSON：{\"occurredDate\":null,\"reasonName\":null,\"description\":null,\"amount\":null,\"confidence\":{},\"evidence\":{}}"@
}

/// The prompt of the retry: why the first answer failed, the dictionary, the OCR text and
/// the first answer.
pub open spec fn retry_prompt_spec(first_error: Seq<char>, reason_json: Seq<char>, ocr_text: Seq<char>, first_record: Seq<char>) -> Seq<char> {
    "上一次响应未通过 JSON 校验："@ + first_error + "\n\n事由字典："@ + reason_json + "\n\nOCR 原文：\n"@ + ocr_text
        + "\n\n上一次响应记录：\n"@ + first_record
        + "\n\n重新提取并只返回一个合法 JSON 对象。必须包含 occurredDate、reasonName、description、amount、confidence、evidence。"@
}

/// The first prompt carries the OCR text verbatim, right after the dictionary and
/// `OCR 原文：`, so two different OCR texts give two different prompts.
pub proof fn law_prompt_carries_ocr_text(reason_json: Seq<char>, ocr_text: Seq<char>, other: Seq<char>)
    ensures
        ("事由字典："@ + reason_json + "\n\nOCR 原文：\n"@).is_prefix_of(user_prompt_spec(reason_json, ocr_text)),
        user_prompt_spec(reason_json, ocr_text).subrange(
            ("事由字典："@ + reason_json + "\n\nOCR 原文：\n"@).len() as int,
            ("事由字典："@ + reason_json + "\n\nOCR 原文：\n"@).len() + ocr_text.len() as int,
        ) == ocr_text,
        user_prompt_spec(reason_json, ocr_text) == user_prompt_spec(reason_json, other) ==> ocr_text == other,
{
    let head = "事由字典："@ + reason_json + "\n\nOCR 原文：\n"@;
    let tail = "\n\n严格按此结构返回 JSON：{\"occurredDate\":null,\"reasonName\":null,\"description\":null,\"amount\":null,\"confidence\":{},\"evidence\":{}}"@;
    let p = user_prompt_spec(reason_json, ocr_text);
    let q = user_prompt_spec(reason_json, other);
    assert(p =~= head + ocr_text + tail);
    assert(q =~= head + other + tail);
    assert(head =~= p.subrange(0, head.len() as int));
    assert(p.subrange(head.len() as int, (head.len() + ocr_text.len()) as int) =~= ocr_text);
    if p == q {
        assert(ocr_text.len() == other.len());
        assert(q.subrange(head.len() as int, (head.len() + other.len()) as int) =~= other);
    }
}

/// The retry prompt carries the OCR text verbatim too, right after the reason of the
/// failure, the dictionary and `OCR 原文：`, so two different OCR texts give two different
/// retry prompts.
pub proof fn law_retry_prompt_carries_ocr_text(
    first_error: Seq<char>,
    reason_json: Seq<char>,
    ocr_text: Seq<char>,
    other: Seq<char>,
    first_record: Seq<char>,
)
    ensures
        ("上一次响应未通过 JSON 校验："@ + first_error + "\n\n事由字典："@ + reason_json + "\n\nOCR 原文：\n"@).is_prefix_of(
            retry_prompt_spec(first_error, reason_json, ocr_text, first_record),
        ),
        retry_prompt_spec(first_error, reason_json, ocr_text, first_record).subrange(
            ("上一次响应未通过 JSON 校验："@ + first_error + "\n\n事由字典："@ + reason_json + "\n\nOCR 原文：\n"@).len() as int,
            ("上一次响应未通过 JSON 校验："@ + first_error + "\n\n事由字典："@ + reason_json + "\n\nOCR 原文：\n"@).len()
                + ocr_text.len() as int,
        ) == ocr_text,
        retry_prompt_spec(first_error, reason_json, ocr_text, first_record) == retry_prompt_spec(
            first_error,
            reason_json,
            other,
            first_record,
        ) ==> ocr_text == other,
{
    let head = "上一次响应未通过 JSON 校验："@ + first_error + "\n\n事由字典："@ + reason_json + "\n\nOCR 原文：\n"@;
    let tail = "\n\n上一次响应记录：\n"@ + first_record
        + "\n\n重新提取并只返回一个合法 JSON 对象。必须包含 occurredDate、reasonName、description、amount、confidence、evidence。"@;
    let p = retry_prompt_spec(first_error, reason_json, ocr_text, first_record);
    let q = retry_prompt_spec(first_error, reason_json, other, first_record);
    assert(p =~= head + ocr_text + tail);
    assert(q =~= head + other + tail);
    assert(head =~= p.subrange(0, head.len() as int));
    assert(p.subrange(head.len() as int, (head.len() + ocr_text.len()) as int) =~= ocr_text);
    if p == q {
        assert(ocr_text.len() == other.len());
        assert(q.subrange(head.len() as int, (head.len() + other.len()) as int) =~= other);
    }
}

/// Builds the first request's prompt.
pub fn llm_user_prompt(reason_json: &str, ocr_text: &str) -> (r: String)
    ensures
        r@ == user_prompt_spec(reason_json@, ocr_text@),
{
    let mut r = String::new();
    push_str(&mut r, "事由字典：");
    push_str(&mut r, reason_json);
    push_str(&mut r, "\n\nOCR 原文：\n");
    push_str(&mut r, ocr_text);
    push_str(
        &mut r,
        "\n\n严格按此结构返回 JSON：{\"occurredDate\":null,\"reasonName\":null,\"description\":null,\"amount\":null,\"confidence\":{},\"evidence\":{}}",
    );
    r
}

/// Builds the retry's prompt.
pub fn llm_retry_prompt(first_error: &str, reason_json: &str, ocr_text: &str, first_record: &str) -> (r: String)
    ensures
        r@ == retry_prompt_spec(first_error@, reason_json@, ocr_text@, first_record@),
{
    let mut r = String::new();
    push_str(&mut r, "上一次响应未通过 JSON 校验：");
    push_str(&mut r, first_error);
    push_str(&mut r, "\n\n事由字典：");
    push_str(&mut r, reason_json);
    push_str(&mut r, "\n\nOCR 原文：\n");
    push_str(&mut r, ocr_text);
    push_str(&mut r, "\n\n上一次响应记录：\n");
    push_str(&mut r, first_record);
    push_str(&mut r, "\n\n重新提取并只返回一个合法 JSON 对象。必须包含 occurredDate、reasonName、description、amount、confidence、evidence。");
    r
}

/// `c` in ASCII lower case.
pub open spec fn ascii_lower(c: char) -> char {
    if 'A' <= c <= 'Z' {
        ((c as int) + 32) as char
    } else {
        c
    }
}

/// `str::eq_ignore_ascii_case`.
pub open spec fn eq_ignore_ascii_case(a: Seq<char>, b: Seq<char>) -> bool {
    a.len() == b.len() && forall|i: int| 0 <= i < a.len() ==> ascii_lower(#[trigger] a[i]) == ascii_lower(b[i])
}

/// Whether the model service at `url` is DeepSeek's, whose thinking mode is switched off.
pub open spec fn is_deepseek(url: UrlView) -> bool {
    url.host matches Some(h) && eq_ignore_ascii_case(h, "api.deepseek.com"@)
}

fn lower(c: char) -> (r: char)
    ensures
        r == ascii_lower(c),
{
    if 'A' <= c && c <= 'Z' {
        ((c as u8) + 32) as char
    } else {
        c
    }
}

/// `str::eq_ignore_ascii_case`.
fn same_ignoring_ascii_case(a: &str, b: &str) -> (r: bool)
    ensures
        r == eq_ignore_ascii_case(a@, b@),
{
    let x = chars_of(a);
    let y = chars_of(b);
    if x.len() != y.len() {
        return false;
    }
    let mut i: usize = 0;
    while i < x.len()
        invariant
            x@ == a@,
            y@ == b@,
            x.len() == y.len(),
            i <= x.len(),
            forall|j: int| 0 <= j < i ==> ascii_lower(#[trigger] x@[j]) == ascii_lower(y@[j]),
        decreases x.len() - i,
    {
        if lower(x[i]) != lower(y[i]) {
            return false;
        }
        i = i + 1;
    }
    true
}

/// A JSON object with one entry.
pub open spec fn single(key: Seq<char>, value: JsonView) -> JsonView {
    JsonView::Object(seq![(key, value)])
}

/// A chat message.
pub open spec fn message_spec(role: Seq<char>, content: Seq<char>) -> JsonView {
    JsonView::Object(seq![("role"@, JsonView::String(role)), ("content"@, JsonView::String(content))])
}

/// The request body sent to the model: the model name, the instructions and `prompt` as
/// messages, a JSON answer required, temperature 0, at most 700 tokens, no streaming;
/// for DeepSeek also thinking switched off.
pub open spec fn llm_body_spec(model: Seq<char>, url: UrlView, prompt: Seq<char>) -> JsonView {
    let entries = seq![
        ("model"@, JsonView::String(trim_spec(model))),
        ("messages"@, JsonView::Array(seq![message_spec("system"@, EXTRACTION_SYSTEM_PROMPT@), message_spec("user"@, prompt)])),
        ("response_format"@, single("type"@, JsonView::String("json_object"@))),
        ("temperature"@, JsonView::Number("0"@)),
        ("max_tokens"@, JsonView::Number("700"@)),
        ("stream"@, JsonView::Bool(false)),
    ];
    if is_deepseek(url) {
        JsonView::Object(entries.push(("thinking"@, single("type"@, JsonView::String("disabled"@)))))
    } else {
        JsonView::Object(entries)
    }
}

fn text_value(s: &str) -> (r: Json)
    ensures
        r@ == JsonView::String(s@),
{
    Json::String(s.to_string())
}

fn object_of(entries: Vec<(String, Json)>) -> (r: Json)
    ensures
        r@ == JsonView::Object(view_entries(entries@)),
{
    Json::Object(entries)
}

fn single_entry(key: &str, value: Json) -> (r: Json)
    ensures
        r@ == single(key@, value@),
{
    let mut v: Vec<(String, Json)> = Vec::new();
    v.push((key.to_string(), value));
    proof {
        lemma_view_entries(v@);
    }
    let r = object_of(v);
    assert(view_entries(v@) =~= seq![(key@, value@)]);
    r
}

fn chat_message(role: &str, content: &str) -> (r: Json)
    ensures
        r@ == message_spec(role@, content@),
{
    let mut v: Vec<(String, Json)> = Vec::new();
    v.push(("role".to_string(), text_value(role)));
    v.push(("content".to_string(), text_value(content)));
    proof {
        lemma_view_entries(v@);
    }
    let r = object_of(v);
    assert(view_entries(v@) =~= seq![("role"@, JsonView::String(role@)), ("content"@, JsonView::String(content@))]);
    r
}

/// The request body sent to the model (see `llm_body_spec`).
pub fn llm_request_body(profile: &LlmProfile, endpoint: &Endpoint, user_prompt: &str) -> (r: Json)
    ensures
        r@ == llm_body_spec(profile.model@, endpoint@, user_prompt@),
{
    let mut messages: Vec<Json> = Vec::new();
    messages.push(chat_message("system", EXTRACTION_SYSTEM_PROMPT));
    messages.push(chat_message("user", user_prompt));
    proof {
        lemma_view_items(messages@);
    }
    assert(view_items(messages@) =~= seq![message_spec("system"@, EXTRACTION_SYSTEM_PROMPT@), message_spec("user"@, user_prompt@)]);
    let mut v: Vec<(String, Json)> = Vec::new();
    v.push(("model".to_string(), text_value(trim(profile.model.as_str()))));
    v.push(("messages".to_string(), Json::Array(messages)));
    v.push(("response_format".to_string(), single_entry("type", text_value("json_object"))));
    v.push(("temperature".to_string(), Json::Number("0".to_string())));
    v.push(("max_tokens".to_string(), Json::Number("700".to_string())));
    v.push(("stream".to_string(), Json::Bool(false)));
    let deepseek = match endpoint.host() {
        Some(h) => same_ignoring_ascii_case(h, "api.deepseek.com"),
        None => false,
    };
    if deepseek {
        v.push(("thinking".to_string(), single_entry("type", text_value("disabled"))));
    }
    proof {
        lemma_view_entries(v@);
    }
    let r = object_of(v);
    proof {
        let spec = llm_body_spec(profile.model@, endpoint@, user_prompt@);
        if deepseek {
            assert(view_entries(v@) =~= spec->Object_0);
        } else {
            assert(view_entries(v@) =~= spec->Object_0);
        }
    }
    r
}


/// Everything the first request to the model needs.
pub struct LlmPlan {
    pub endpoint: Endpoint,
    pub reason_json: String,
    pub body: Json,
    pub timeout_seconds: u64,
}

/// What an extraction failed with, or `None` when it succeeds (see `extraction_spec`).
pub open spec fn extraction_error(content: Seq<char>) -> Option<Seq<char>> {
    let t = trim_spec(content);
    match first_json_object_spec(t) {
        None => Some(if t.contains('{') {
            "大模型返回的 JSON 对象不完整"@
        } else {
            "大模型没有返回 JSON 对象"@
        }),
        Some(object) => match serde_json_parse(object) {
            None => Some("大模型返回的 JSON 格式无效"@),
            Some(_) => None,
        },
    }
}

/// Prepares the first request: the chat-completions address of the profile, the
/// dictionary as JSON, and the body with the first prompt.
pub fn plan_llm_request(profile: &LlmProfile, ocr_text: &str, reasons: &[String]) -> (r: Result<LlmPlan, (String, Option<String>)>)
    ensures
        match completions_outcome(profile.base_url@) {
            Err(m) => r matches Err(e) && e.0@ == m && e.1 is None,
            Ok(url) => r matches Ok(plan) && {
                &&& plan.endpoint@ == url
                &&& plan.reason_json@ == reason_json_spec(reasons@)
                &&& plan.body@ == llm_body_spec(profile.model@, url, user_prompt_spec(reason_json_spec(reasons@), ocr_text@))
                &&& plan.timeout_seconds == request_timeout_seconds_spec(profile.timeout_seconds)
            },
        },
{
    let endpoint = match chat_completions_endpoint(profile.base_url.as_str()) {
        Ok(e) => e,
        Err(m) => {
            return Err((m, None));
        },
    };
    let reason_json = reason_dictionary_json(reasons);
    let prompt = llm_user_prompt(reason_json.as_str(), ocr_text);
    let body = llm_request_body(profile, &endpoint, prompt.as_str());
    Ok(LlmPlan { endpoint, reason_json, body, timeout_seconds: request_timeout_seconds(profile.timeout_seconds) })
}

/// A profile's timeout held to 5..=180 seconds.
pub open spec fn request_timeout_seconds_spec(seconds: u64) -> u64 {
    if seconds < 5 {
        5
    } else if seconds > 180 {
        180
    } else {
        seconds
    }
}

/// What to do after the first answer: finish, or send a stricter retry.
pub enum LlmNext {
    Finished(Result<(ExtractedExpense, String), (String, Option<String>)>),
    Retry { first_error: String, body: Json },
}

/// What the first answer leads to.
pub open spec fn first_answer_spec(
    model: Seq<char>,
    url: UrlView,
    reason_json: Seq<char>,
    ocr_text: Seq<char>,
    reasons: Seq<Seq<char>>,
    answer: Result<Json, String>,
    next: LlmNext,
) -> bool {
    match answer {
        Err(m) => next matches LlmNext::Finished(Err(e)) && e.0@ == m@ && e.1 is None,
        Ok(v) => match llm_content_spec(v@) {
            Some(c) => match extraction_error(c) {
                None => next matches LlmNext::Finished(Ok(done)) && extraction_spec(c, reasons, Ok(done.0))
                    && done.1@ == normalized_record_spec(c),
                Some(m) => next matches LlmNext::Retry { first_error, body } && first_error@ == m
                    && body@ == llm_body_spec(model, url, retry_prompt_spec(m, reason_json, ocr_text, c)),
            },
            None => next matches LlmNext::Retry { first_error, body } && first_error@ == "大模型响应中没有可用文本内容"@
                && body@ == llm_body_spec(model, url, retry_prompt_spec(first_error@, reason_json, ocr_text, "未返回 content"@)),
        },
    }
}

/// Decides what follows the first answer: its fields when it reads, otherwise a retry
/// that tells the model why.
pub fn after_first_llm_answer(
    profile: &LlmProfile,
    plan: &LlmPlan,
    ocr_text: &str,
    reasons: &[String],
    answer: Result<Json, String>,
) -> (next: LlmNext)
    ensures
        first_answer_spec(profile.model@, plan.endpoint@, plan.reason_json@, ocr_text@, views_of(reasons@), answer, next),
{
    let value = match answer {
        Err(m) => {
            return LlmNext::Finished(Err((m, None)));
        },
        Ok(v) => v,
    };
    let content = extract_llm_content(&value);
    let (first_error, first_record) = match content {
        Some(c) => match parse_extracted_expense(c.as_str(), reasons) {
            Ok(x) => {
                let record = normalized_json_record(c.as_str());
                return LlmNext::Finished(Ok((x, record)));
            },
            Err(m) => (m, c),
        },
        None => ("大模型响应中没有可用文本内容".to_string(), "未返回 content".to_string()),
    };
    let prompt = llm_retry_prompt(first_error.as_str(), plan.reason_json.as_str(), ocr_text, first_record.as_str());
    let body = llm_request_body(profile, &plan.endpoint, prompt.as_str());
    LlmNext::Retry { first_error, body }
}

/// What the retry's answer gives.
pub open spec fn retry_answer_spec(
    first_error: Seq<char>,
    reasons: Seq<Seq<char>>,
    answer: Result<Json, String>,
    r: Result<(ExtractedExpense, String), (String, Option<String>)>,
) -> bool {
    match answer {
        Err(m) => r matches Err(e) && e.0@ == first_error + "；严格 JSON 重试失败："@ + m@ && e.1 is None,
        Ok(v) => match llm_content_spec(v@) {
            None => r matches Err(e) && e.0@ == "大模型严格重试后仍未返回可用文本内容"@ && e.1 is None,
            Some(c) => match extraction_error(c) {
                Some(m) => r matches Err(e) && e.0@ == "大模型严格重试后仍未返回合法 JSON："@ + m && e.1 is None,
                None => r matches Ok(done) && extraction_spec(c, reasons, Ok(done.0)) && done.1@ == normalized_record_spec(c),
            },
        },
    }
}

/// Reads the retry's answer; a failure now is final.
pub fn after_retry_llm_answer(
    first_error: &str,
    reasons: &[String],
    answer: Result<Json, String>,
) -> (r: Result<(ExtractedExpense, String), (String, Option<String>)>)
    ensures
        retry_answer_spec(first_error@, views_of(reasons@), answer, r),
{
    let value = match answer {
        Err(m) => {
            let mut message = String::new();
            push_str(&mut message, first_error);
            push_str(&mut message, "；严格 JSON 重试失败：");
            push_str(&mut message, m.as_str());
            return Err((message, None));
        },
        Ok(v) => v,
    };
    let content = match extract_llm_content(&value) {
        Some(c) => c,
        None => {
            return Err(("大模型严格重试后仍未返回可用文本内容".to_string(), None));
        },
    };
    match parse_extracted_expense(content.as_str(), reasons) {
        Ok(x) => Ok((x, normalized_json_record(content.as_str()))),
        Err(m) => {
            let mut message = String::new();
            push_str(&mut message, "大模型严格重试后仍未返回合法 JSON：");
            push_str(&mut message, m.as_str());
            Err((message, None))
        },
    }
}

} // verus!
