use sheepfinance::aliyun::aliyun_timestamp;
use sheepfinance::amount::{days_in_month, decimal_to_cents, valid_date};
use sheepfinance::endpoint::chat_completions_endpoint;
use sheepfinance::extraction::{first_json_object, normalized_json_record, parse_extracted_expense};
use sheepfinance::json::Json;
use sheepfinance::llm::{extract_llm_content, llm_request_body, reason_dictionary_json};
use sheepfinance::ocr::extract_ocr_text;
use sheepfinance::recognition::{
    decode_image_data_url, LlmProfile, OcrMode, ADVANCED_OCR_QUERY, EXTRACTION_SYSTEM_PROMPT,
};

fn s(text: &str) -> Json {
    Json::String(text.to_string())
}

fn obj(entries: Vec<(&str, Json)>) -> Json {
    Json::Object(entries.into_iter().map(|(k, v)| (k.to_string(), v)).collect())
}

fn arr(items: Vec<Json>) -> Json {
    Json::Array(items)
}

#[test]
fn parses_nested_aliyun_data() {
    let value = obj(vec![("Data", s("{\"content\":\"第一行\\n第二行\"}"))]);
    assert_eq!(extract_ocr_text(&value).as_deref(), Some("第一行\n第二行"));
}

#[test]
fn prefers_aliyun_rows_and_falls_back_to_paragraphs() {
    let rows = obj(vec![(
        "Data",
        s("{\"content\":\"无格式全文\",\"prism_paragraphsInfo\":[{\"word\":\"段落内容\"}],\"prism_rowsInfo\":[{\"word\":\"第一行\"},{\"word\":\"第二行\"}]}"),
    )]);
    assert_eq!(extract_ocr_text(&rows).as_deref(), Some("第一行\n第二行"));

    let paragraphs = obj(vec![(
        "Data",
        obj(vec![
            ("content", s("无格式全文")),
            (
                "prism_paragraphsInfo",
                arr(vec![obj(vec![("word", s("第一段"))]), obj(vec![("word", s("第二段"))])]),
            ),
        ]),
    )]);
    assert_eq!(extract_ocr_text(&paragraphs).as_deref(), Some("第一段\n第二段"));
}

#[test]
fn advanced_ocr_enables_layout_parameters_only() {
    assert_eq!(OcrMode::Advanced.query(), ADVANCED_OCR_QUERY);
    assert_eq!(OcrMode::Handwriting.query(), "");
}

#[test]
fn validates_and_normalizes_model_result() {
    let result = parse_extracted_expense(
        "```json\n{\"occurredDate\":\"2026-08-07\",\"reasonName\":\"办公费\",\"description\":\"购买纸张\",\"amount\":\"1,028.50\"}\n```",
        &["办公费".to_string(), "差旅费".to_string()],
    )
    .expect("valid result");
    assert_eq!(result.occurred_date.as_deref(), Some("2026-08-07"));
    assert_eq!(result.reason_name.as_deref(), Some("办公费"));
    assert_eq!(result.amount_cents, Some(102_850));
    assert_eq!(decimal_to_cents("￥1，546.69"), Some(154_669));
    assert!(EXTRACTION_SYSTEM_PROMPT.contains("1,546.69"));
}

#[test]
fn rejects_reason_outside_dictionary_and_bad_date() {
    let result = parse_extracted_expense(
        "{\"occurredDate\":\"2026-02-30\",\"reasonName\":\"其他\",\"amount\":\"12.3\"}",
        &["办公费".to_string()],
    )
    .expect("valid json");
    assert_eq!(result.occurred_date, None);
    assert_eq!(result.reason_name, None);
    assert_eq!(result.amount_cents, Some(1230));
}

#[test]
fn extracts_array_style_llm_content() {
    let response = obj(vec![(
        "choices",
        arr(vec![obj(vec![(
            "message",
            obj(vec![(
                "content",
                arr(vec![
                    obj(vec![("type", s("text")), ("text", s("{\"amount\":\"18.20\","))]),
                    obj(vec![("type", s("text")), ("text", s("\"confidence\":{},\"evidence\":{}}"))]),
                ]),
            )]),
        )])]),
    )]);
    assert_eq!(
        extract_llm_content(&response).as_deref(),
        Some("{\"amount\":\"18.20\",\n\"confidence\":{},\"evidence\":{}}")
    );
}

#[test]
fn ignores_reasoning_and_keeps_legacy_text_compatibility() {
    let reasoning = obj(vec![(
        "choices",
        arr(vec![obj(vec![(
            "message",
            obj(vec![("content", Json::Null), ("reasoning_content", s("{\"amount\":\"9.90\"}"))]),
        )])]),
    )]);
    assert!(extract_llm_content(&reasoning).is_none());
    let legacy = obj(vec![("choices", arr(vec![obj(vec![("text", s("{\"amount\":\"8.80\"}"))])]))]);
    assert_eq!(extract_llm_content(&legacy).as_deref(), Some("{\"amount\":\"8.80\"}"));
}

#[test]
fn deepseek_request_disables_thinking_and_requires_json() {
    let profile = LlmProfile {
        name: "DeepSeek".to_string(),
        base_url: "https://api.deepseek.com/v1".to_string(),
        api_key: "test-key".to_string(),
        model: "deepseek-v4-flash".to_string(),
        timeout_seconds: 30,
    };
    let endpoint = chat_completions_endpoint(&profile.base_url).expect("endpoint");
    let request = llm_request_body(&profile, &endpoint, "返回 JSON");
    assert_eq!(
        request.get("response_format").and_then(|v| v.get("type")),
        Some(&s("json_object"))
    );
    assert_eq!(request.get("thinking").and_then(|v| v.get("type")), Some(&s("disabled")));

    let openai = chat_completions_endpoint("https://api.openai.com/v1/chat/completions").expect("url");
    let request = llm_request_body(&profile, &openai, "返回 JSON");
    assert!(request.get("thinking").is_none());
}

#[test]
fn keeps_only_normalized_json_as_ai_record() {
    assert_eq!(
        normalized_json_record("说明：```json\n{\"amount\":\"18.20\"}\n```"),
        "{\n  \"amount\": \"18.20\"\n}"
    );
}

#[test]
fn parses_first_balanced_json_object_only() {
    let result = parse_extracted_expense(
        "说明 {\"description\":\"商品包含 { 型号 }\",\"amount\":\"20.00\"} 后续 {不是结果}",
        &[],
    )
    .expect("first object");
    assert_eq!(result.description.as_deref(), Some("商品包含 { 型号 }"));
    assert_eq!(result.amount_cents, Some(2000));
}

#[test]
fn appends_chat_completions_path_once() {
    assert_eq!(
        chat_completions_endpoint("https://api.deepseek.com/v1").expect("url").as_str(),
        "https://api.deepseek.com/v1/chat/completions"
    );
    assert_eq!(
        chat_completions_endpoint("https://example.com/v1/chat/completions")
            .expect("url")
            .as_str(),
        "https://example.com/v1/chat/completions"
    );
}

#[test]
fn data_url_limit_is_enforced() {
    assert_eq!(decode_image_data_url("data:image/png;base64,SGVsbG8=").expect("decode"), b"Hello");
}

#[test]
fn aliyun_timestamp_uses_second_precision_utc_format() {
    assert_eq!(aliyun_timestamp(0).expect("timestamp"), "1970-01-01T00:00:00Z");
}

#[test]
fn model_request_body_has_the_fixed_fields() {
    let profile = LlmProfile {
        name: "Other".to_string(),
        base_url: "https://api.example.com/v1".to_string(),
        api_key: "k".to_string(),
        model: "  m1  ".to_string(),
        timeout_seconds: 0,
    };
    let endpoint = chat_completions_endpoint(&profile.base_url).expect("endpoint");
    let body = llm_request_body(&profile, &endpoint, "问题");
    assert_eq!(body.get("model"), Some(&s("m1")));
    assert_eq!(body.get("temperature"), Some(&Json::Number("0".to_string())));
    assert_eq!(body.get("max_tokens"), Some(&Json::Number("700".to_string())));
    assert_eq!(body.get("stream"), Some(&Json::Bool(false)));
    let messages = body.get("messages").expect("messages");
    assert_eq!(messages.at(0).and_then(|m| m.get("content")), Some(&s(EXTRACTION_SYSTEM_PROMPT)));
    assert_eq!(messages.at(1).and_then(|m| m.get("role")), Some(&s("user")));
    assert_eq!(messages.at(1).and_then(|m| m.get("content")), Some(&s("问题")));
    assert!(body.get("thinking").is_none());
}

#[test]
fn decimal_amounts_edge_cases() {
    assert_eq!(decimal_to_cents("12"), Some(1200));
    assert_eq!(decimal_to_cents(" 12.5 元"), Some(1250));
    assert_eq!(decimal_to_cents("¥0.07"), Some(7));
    assert_eq!(decimal_to_cents("12.345"), None);
    assert_eq!(decimal_to_cents("-3.00"), None);
    assert_eq!(decimal_to_cents(".50"), None);
    assert_eq!(decimal_to_cents("1.2.3"), None);
    assert_eq!(decimal_to_cents(""), None);
    assert_eq!(decimal_to_cents("abc"), None);
    assert_eq!(decimal_to_cents("92233720368547758.07"), Some(i64::MAX));
    assert_eq!(decimal_to_cents("92233720368547758.08"), None);
}

#[test]
fn calendar_dates() {
    assert_eq!(days_in_month(2024, 2), 29);
    assert_eq!(days_in_month(2023, 2), 28);
    assert_eq!(days_in_month(1900, 2), 28);
    assert_eq!(days_in_month(2000, 2), 29);
    assert_eq!(days_in_month(2023, 4), 30);
    assert_eq!(days_in_month(2023, 12), 31);
    assert_eq!(days_in_month(2023, 13), 0);
    assert!(valid_date("2024-02-29"));
    assert!(!valid_date("2023-02-29"));
    assert!(!valid_date("1899-12-31"));
    assert!(valid_date("2200-12-31"));
    assert!(!valid_date("2024/01/01"));
    assert!(!valid_date("2024-1-01"));
    assert!(!valid_date("2024-00-10"));
    assert!(!valid_date("2026-+1-05"));
    assert!(!valid_date("2026-01-+5"));
    assert!(!valid_date("+026-01-05"));
    assert!(!valid_date("2026-01-0５"));
}

#[test]
fn first_object_spans_nested_braces_and_strings() {
    assert_eq!(first_json_object("a {\"x\":{\"y\":\"}\"}} b"), Some("{\"x\":{\"y\":\"}\"}}"));
    assert_eq!(first_json_object("no object"), None);
    assert_eq!(first_json_object("{\"open\": 1"), None);
}

#[test]
fn extraction_errors_are_named() {
    let reasons: Vec<String> = Vec::new();
    assert_eq!(
        parse_extracted_expense("没有对象", &reasons).unwrap_err(),
        "大模型没有返回 JSON 对象"
    );
    assert_eq!(
        parse_extracted_expense("{\"amount\": ", &reasons).unwrap_err(),
        "大模型返回的 JSON 对象不完整"
    );
    assert_eq!(
        parse_extracted_expense("{amount}", &reasons).unwrap_err(),
        "大模型返回的 JSON 格式无效"
    );
    let plain = parse_extracted_expense("{\"amount\": 18.5}", &reasons).expect("number amount");
    assert_eq!(plain.amount_cents, Some(1850));
    assert_eq!(plain.confidence, Json::Object(Vec::new()));
    assert_eq!(plain.evidence, Json::Object(Vec::new()));
}

#[test]
fn reason_dictionary_is_a_json_list() {
    assert_eq!(
        reason_dictionary_json(&["办公费".to_string(), "差\"旅".to_string()]),
        "[\"办公费\",\"差\\\"旅\"]"
    );
    assert_eq!(reason_dictionary_json(&[]), "[]");
}

#[test]
fn record_falls_back_to_trimmed_text() {
    assert_eq!(normalized_json_record("  不是 JSON  "), "不是 JSON");
}

#[test]
fn record_is_the_object_whose_fields_were_read() {
    let content = "  \n说明 {\"amount\":\"3.10\",\"description\":\" 纸 \"} 结束\t ";
    let fields = parse_extracted_expense(content, &[]).expect("fields");
    assert_eq!(fields.amount_cents, Some(310));
    assert_eq!(fields.description.as_deref(), Some("纸"));
    assert_eq!(normalized_json_record(content), "{\n  \"amount\": \"3.10\",\n  \"description\": \" 纸 \"\n}");
}

#[test]
fn reason_dictionary_escapes_as_json() {
    let reasons = vec!["a\"b\\c/".to_string(), "\u{1}\n\t\u{8}\u{c}\r\u{1f}".to_string(), "中文\u{7f}".to_string()];
    assert_eq!(
        reason_dictionary_json(&reasons),
        "[\"a\\\"b\\\\c/\",\"\\u0001\\n\\t\\b\\f\\r\\u001f\",\"中文\u{7f}\"]"
    );
    assert_eq!(reason_dictionary_json(&reasons), serde_json::to_string(&reasons).unwrap());
    assert_eq!(reason_dictionary_json(&["单".to_string()]), "[\"单\"]");
}
