# sheepfinance

The logic of SheepFinance, a desktop workbench for expense receipts, written in Verus:

- `src/` is the verified library. It decides everything about a phone upload session
  (who may upload, how many pictures, what each becomes), builds the upload pages,
  signs the Aliyun OCR request, reads the OCR and language-model answers, checks the
  extracted expense fields (dates, dictionary reasons, amounts in cents) and names the
  files of the local workspace. Calls into `serde_json`, `url` (through `reqwest`),
  `base64`, `sha2`, `hmac`, `hex`, `time` and `uuid` sit behind small trusted wrappers
  whose contracts are documented where they stand.
- `tests/` runs the library on concrete values.
- `app/` is the unverified shell around it: the window's commands, the axum upload
  server, the HTTP calls made with reqwest, file storage, and the serde shapes of the
  messages exchanged with the window and the phone.
