//! SheepFinance's expense-recognition and phone-upload logic, verified with Verus.
//!
//! - `lan_upload` and `upload_page`: the short-lived upload session that a phone on the
//!   local network uses to send receipt pictures, and the pages it is shown.
//! - `recognition`, `aliyun`, `ocr`, `llm`, `extraction`, `amount`: checking a recognition
//!   request, signing the Aliyun OCR request, reading its text, asking a language model
//!   for the expense fields and checking what it answers.
//! - `storage`: record numbers, file names and backup recovery of the local workspace.
//! - `json`, `endpoint`, `codec`, `digest`, `text`: JSON values, service addresses,
//!   base64, SHA-256/HMAC and text helpers, over the `serde_json`, `url`, `base64`, `sha2`,
//!   `hmac` and `hex` crates.
pub mod aliyun;
pub mod amount;
pub mod codec;
pub mod digest;
pub mod endpoint;
pub mod extraction;
pub mod json;
pub mod lan_upload;
pub mod llm;
pub mod ocr;
pub mod recognition;
pub mod storage;
pub mod text;
pub mod upload_page;
