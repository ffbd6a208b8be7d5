use sheepfinance::aliyun::{aliyun_target, prepare_aliyun_request, sign_aliyun_request};
use sheepfinance::digest::{hmac_sha256_hex, sha256_hex};
use sheepfinance::endpoint::normalized_endpoint;
use sheepfinance::json::Json;
use sheepfinance::llm::{after_first_llm_answer, after_retry_llm_answer, plan_llm_request, LlmNext};
use sheepfinance::recognition::{
    api_error, begin_recognition, check_ocr_text, decode_image_data_url, llm_response_value, network_error,
    ocr_response_text, request_timeout_seconds, validate_request, LlmProfile, NetworkFailure, OcrMode, OcrProfile,
    RecognitionRequest,
};

fn ocr_profile(endpoint: &str, region: &str) -> OcrProfile {
    OcrProfile {
        name: "阿里云".to_string(),
        endpoint: endpoint.to_string(),
        region: region.to_string(),
        access_key_id: " id ".to_string(),
        access_key_secret: " secret ".to_string(),
        timeout_seconds: 300,
    }
}

fn llm_profile() -> LlmProfile {
    LlmProfile {
        name: "模型".to_string(),
        base_url: "https://api.example.com/v1/".to_string(),
        api_key: "key".to_string(),
        model: "m".to_string(),
        timeout_seconds: 2,
    }
}

fn answer(content: &str) -> Json {
    Json::Object(vec![(
        "choices".to_string(),
        Json::Array(vec![Json::Object(vec![(
            "message".to_string(),
            Json::Object(vec![("content".to_string(), Json::String(content.to_string()))]),
        )])]),
    )])
}

#[test]
fn digests_match_known_values() {
    assert_eq!(
        sha256_hex(b"abc"),
        "ba7816bf8f01cfea414140de5dae2223b00361a396177a9cb410ff61f20015ad"
    );
    assert_eq!(
        hmac_sha256_hex(b"Jefe", b"what do ya want for nothing?").unwrap(),
        "5bdcc146bf60754e6a042426089575c75a003f089d2739839dec58b964ec3843"
    );
}

#[test]
fn aliyun_request_is_signed_over_the_canonical_request() {
    let profile = ocr_profile("https://ocr-api.cn-hangzhou.aliyuncs.com?x=1#top", " cn-hangzhou ");
    let target = aliyun_target(&profile, OcrMode::Advanced).expect("target");
    assert_eq!(
        target.as_str(),
        "https://ocr-api.cn-hangzhou.aliyuncs.com/?NeedRotate=true&NeedSortPage=true&Paragraph=true&Row=true"
    );
    let request = sign_aliyun_request(
        &profile,
        OcrMode::Advanced,
        &target,
        b"Hello",
        "2024-01-02T03:04:05Z",
        "00000000-0000-4000-8000-000000000000",
    )
    .expect("signed");
    assert_eq!(request.url, target.as_str());
    assert_eq!(request.timeout_seconds, 180);
    let headers: Vec<(&str, &str)> = request.headers.iter().map(|(k, v)| (k.as_str(), v.as_str())).collect();
    assert_eq!(
        headers,
        vec![
            ("content-type", "application/octet-stream"),
            ("x-acs-action", "RecognizeAdvanced"),
            ("x-acs-version", "2021-07-07"),
            ("x-acs-date", "2024-01-02T03:04:05Z"),
            ("x-acs-signature-nonce", "00000000-0000-4000-8000-000000000000"),
            ("x-acs-content-sha256", "185f8db32271fe25f561a6fc938b2e264306ec304eda518007d1764826381969"),
            (
                "authorization",
                "ACS3-HMAC-SHA256 Credential=id,SignedHeaders=host;x-acs-action;x-acs-content-sha256;x-acs-date;x-acs-region-id;x-acs-signature-nonce;x-acs-version,Signature=e959143f79178971a4182d48a2160945294320b2d1df944603f53795f0a94d43",
            ),
            ("x-acs-region-id", "cn-hangzhou"),
        ]
    );
}

#[test]
fn aliyun_addresses_are_checked() {
    let handwriting = aliyun_target(&ocr_profile("https://ocr.example.com/path?q=1", ""), OcrMode::Handwriting)
        .expect("target");
    assert_eq!(handwriting.as_str(), "https://ocr.example.com/path");
    assert_eq!(
        aliyun_target(&ocr_profile("not a url", ""), OcrMode::Advanced).err().expect("refused"),
        "阿里云 OCR 服务地址格式无效"
    );
    assert_eq!(
        aliyun_target(&ocr_profile("ftp://ocr.example.com", ""), OcrMode::Advanced).err().expect("refused"),
        "阿里云 OCR 服务地址只支持 HTTP 或 HTTPS"
    );
    let prepared = prepare_aliyun_request(&ocr_profile("https://ocr.example.com", ""), OcrMode::Handwriting, b"x")
        .expect("prepared");
    assert_eq!(prepared.url, "https://ocr.example.com/");
    assert_eq!(prepared.headers.len(), 7);
    assert_eq!(prepared.headers[3].0, "x-acs-date");
    assert_eq!(prepared.headers[3].1.len(), 20);
    assert_eq!(prepared.headers[4].1.len(), 36);
}

#[test]
fn endpoints_drop_query_and_fragment() {
    assert_eq!(
        normalized_endpoint("  http://host.example/a?b=1#c  ", "服务").expect("url").as_str(),
        "http://host.example/a"
    );
}

#[test]
fn service_errors_are_worded() {
    let body = Json::Object(vec![
        ("code".to_string(), Json::String("Throttled".to_string())),
        ("Message".to_string(), Json::String("太快".to_string())),
    ]);
    assert_eq!(api_error("大模型", 429, &body), "大模型 请求失败（HTTP 429，Throttled）：太快");
    assert_eq!(
        api_error("阿里云 OCR", 500, &Json::Null),
        "阿里云 OCR 请求失败（HTTP 500，UnknownError）：服务返回错误"
    );
    assert_eq!(network_error("大模型", &NetworkFailure::Timeout), "大模型 请求超时");
    assert_eq!(
        network_error("大模型", &NetworkFailure::Connect),
        "无法连接到大模型服务，请检查网络和服务地址"
    );
    assert_eq!(
        network_error("阿里云 OCR", &NetworkFailure::Other("断开".to_string())),
        "阿里云 OCR 请求失败：断开"
    );
}

#[test]
fn ocr_answers_are_read() {
    assert_eq!(ocr_response_text(200, "{\"Data\":{\"content\":\" 全文 \"}}").unwrap(), "全文");
    assert_eq!(
        ocr_response_text(200, "<html>").unwrap_err(),
        "阿里云 OCR 返回了无法解析的响应（HTTP 200）"
    );
    assert_eq!(
        ocr_response_text(403, "{\"Code\":\"Forbidden\",\"Message\":\"无权限\"}").unwrap_err(),
        "阿里云 OCR 请求失败（HTTP 403，Forbidden）：无权限"
    );
    assert_eq!(ocr_response_text(200, "{}").unwrap_err(), "阿里云 OCR 响应中缺少文字内容");
    assert!(check_ocr_text(" \n ").is_err());
    assert!(check_ocr_text("字").is_ok());
}

#[test]
fn model_answers_are_read() {
    assert_eq!(llm_response_value(200, "{\"a\":true}").unwrap(), Json::Object(vec![("a".to_string(), Json::Bool(true))]));
    assert_eq!(llm_response_value(502, "oops").unwrap_err(), "大模型返回了无法解析的响应（HTTP 502）");
    assert_eq!(
        llm_response_value(401, "{\"message\":\"bad key\"}").unwrap_err(),
        "大模型 请求失败（HTTP 401，UnknownError）：bad key"
    );
}

#[test]
fn picture_data_urls_are_checked() {
    assert_eq!(decode_image_data_url("no comma").unwrap_err(), "识别图片数据格式无效");
    assert_eq!(
        decode_image_data_url("data:text/plain;base64,SGk=").unwrap_err(),
        "识别图片必须是 Base64 图片数据"
    );
    assert_eq!(decode_image_data_url("data:image/png;base64,@@@").unwrap_err(), "识别图片 Base64 解码失败");
    assert_eq!(decode_image_data_url("data:image/png;base64,").unwrap_err(), "识别图片内容为空");
}

#[test]
fn requests_need_keys_before_anything_is_sent() {
    let mut request = RecognitionRequest {
        image_data_url: "data:image/png;base64,SGk=".to_string(),
        ocr_mode: OcrMode::Handwriting,
        ocr_profile: ocr_profile("https://ocr.example.com", ""),
        llm_profile: llm_profile(),
        reason_dictionary: Vec::new(),
    };
    assert!(validate_request(&request).is_ok());
    assert_eq!(begin_recognition(&request).unwrap(), b"Hi");
    request.llm_profile.model = "  ".to_string();
    assert_eq!(validate_request(&request).unwrap_err(), "请先填写大模型 API Key 和模型名称");
    request.ocr_profile.access_key_secret = String::new();
    assert_eq!(
        begin_recognition(&request).unwrap_err(),
        "请先填写阿里云 OCR 的 AccessKey ID 和 AccessKey Secret"
    );
    assert_eq!(request_timeout_seconds(0), 5);
    assert_eq!(request_timeout_seconds(60), 60);
    assert_eq!(request_timeout_seconds(1000), 180);
    assert_eq!(OcrMode::Handwriting.action(), "RecognizeHandwriting");
}

#[test]
fn model_exchange_retries_once_with_the_reason() {
    let profile = llm_profile();
    let reasons = vec!["办公费".to_string()];
    let plan = plan_llm_request(&profile, "OCR 文本", &reasons).ok().expect("plan");
    assert_eq!(plan.endpoint.as_str(), "https://api.example.com/v1/chat/completions");
    assert_eq!(plan.reason_json, "[\"办公费\"]");
    assert_eq!(plan.timeout_seconds, 5);

    let done = after_first_llm_answer(&profile, &plan, "OCR 文本", &reasons, Ok(answer("{\"reasonName\":\"办公费\"}")));
    match done {
        LlmNext::Finished(Ok((fields, record))) => {
            assert_eq!(fields.reason_name.as_deref(), Some("办公费"));
            assert_eq!(record, "{\n  \"reasonName\": \"办公费\"\n}");
        }
        _ => panic!("expected a finished extraction"),
    }

    let retry = after_first_llm_answer(&profile, &plan, "OCR 文本", &reasons, Ok(answer("没有")));
    let first_error = match retry {
        LlmNext::Retry { first_error, body } => {
            assert!(body.get("messages").is_some());
            first_error
        }
        _ => panic!("expected a retry"),
    };
    assert_eq!(first_error, "大模型没有返回 JSON 对象");

    let failed = after_first_llm_answer(&profile, &plan, "OCR 文本", &reasons, Err("网络".to_string()));
    assert!(matches!(failed, LlmNext::Finished(Err((ref m, None))) if m == "网络"));

    let final_error = after_retry_llm_answer(&first_error, &reasons, Err("超时".to_string())).err().expect("error");
    assert_eq!(final_error.0, "大模型没有返回 JSON 对象；严格 JSON 重试失败：超时");
    let final_error = after_retry_llm_answer(&first_error, &reasons, Ok(answer("还是没有"))).err().expect("error");
    assert_eq!(final_error.0, "大模型严格重试后仍未返回合法 JSON：大模型没有返回 JSON 对象");
    let final_error = after_retry_llm_answer(&first_error, &reasons, Ok(Json::Null)).err().expect("error");
    assert_eq!(final_error.0, "大模型严格重试后仍未返回可用文本内容");
    let ok = after_retry_llm_answer(&first_error, &reasons, Ok(answer("{\"amount\":\"1\"}"))).ok().expect("ok");
    assert_eq!(ok.0.amount_cents, Some(100));

    let mut bad = llm_profile();
    bad.base_url = "mailto:x@example.com".to_string();
    let refused = plan_llm_request(&bad, "t", &reasons).err().expect("refused");
    assert_eq!(refused.0, "大模型 服务地址只支持 HTTP 或 HTTPS");
}

#[test]
fn uploaded_pictures_decode_back_for_recognition() {
    let png = [0x89, b'P', b'N', b'G', 0x0D, 0x0A, 0x1A, 0x0A, 1, 2, 3, 250];
    let file = sheepfinance::lan_upload::prepare_upload_file(Some("a.png"), &png, 0).expect("accepted");
    assert_eq!(file.mime_type, "image/png");
    assert_eq!(decode_image_data_url(&file.data_url).unwrap(), png.to_vec());
}

#[test]
fn endpoints_normalise_to_themselves() {
    for base in ["https://api.deepseek.com/v1", "http://Example.COM:8080/a//?x=1#y", "https://h/v1/chat/completions/"] {
        let once = sheepfinance::endpoint::chat_completions_endpoint(base).expect("endpoint");
        let twice = sheepfinance::endpoint::chat_completions_endpoint(once.as_str()).expect("again");
        assert_eq!(once.as_str(), twice.as_str());
        assert!(!once.as_str().contains('?') && !once.as_str().contains('#'));
        assert!(once.path().trim_end_matches('/').ends_with("/chat/completions"));
        let normal = normalized_endpoint(base, "服务").expect("normal");
        assert_eq!(normalized_endpoint(normal.as_str(), "服务").expect("again").as_str(), normal.as_str());
    }
}
