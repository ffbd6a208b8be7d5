//! Reading the recognised text out of an Aliyun OCR answer.
use vstd::prelude::*;

use crate::json::{lemma_view_array, lemma_view_items, opt_json_view, opt_view, parse_json, serde_json_parse, view_items, Json, JsonView};
use crate::text::{join_lines, join_with_newlines, trim_nonempty, trimmed_nonempty, views_of};

verus! {

/// The keys under which the answer lists its rows of text.
pub open spec fn row_keys() -> Seq<Seq<char>> {
    seq!["prism_rowsInfo"@, "rowsInfo"@, "RowsInfo"@]
}

/// The keys under which the answer lists its paragraphs.
pub open spec fn paragraph_keys() -> Seq<Seq<char>> {
    seq!["prism_paragraphsInfo"@, "paragraphsInfo"@, "ParagraphsInfo"@]
}

/// The keys under which the answer lists its words.
pub open spec fn word_keys() -> Seq<Seq<char>> {
    seq!["prism_wordsInfo"@, "wordsInfo"@, "WordsInfo"@]
}

/// The character sequences of a list of keys.
pub open spec fn key_views(keys: Seq<&str>) -> Seq<Seq<char>> {
    Seq::new(keys.len(), |i: int| keys[i]@)
}

/// The items of the first key in `keys` under which `v` holds an array.
pub open spec fn ocr_items(v: JsonView, keys: Seq<Seq<char>>) -> Option<Seq<JsonView>>
    decreases keys.len(),
{
    if keys.len() == 0 {
        None
    } else {
        match v.get(keys[0]) {
            Some(JsonView::Array(items)) => Some(items),
            _ => ocr_items(v, keys.drop_first()),
        }
    }
}

/// The text of one item: its `word`, or its `text` when it has no `word`, trimmed; `None`
/// when that is not a string or is blank.
pub open spec fn item_word(item: JsonView) -> Option<Seq<char>> {
    let w = match item.get("word"@) {
        Some(x) => Some(x),
        None => item.get("text"@),
    };
    match w {
        Some(x) => match x.as_str() {
            Some(s) => trimmed_nonempty(s),
            None => None,
        },
        None => None,
    }
}

/// The texts of the items that have one, in order.
pub open spec fn item_words(items: Seq<JsonView>) -> Seq<Seq<char>>
    decreases items.len(),
{
    if items.len() == 0 {
        Seq::empty()
    } else {
        match item_word(items.last()) {
            Some(w) => item_words(items.drop_last()).push(w),
            None => item_words(items.drop_last()),
        }
    }
}

/// The item texts listed under the first of `keys` that holds an array, one per line;
/// `None` when there is no such list or it yields no text.
pub open spec fn join_ocr_items_spec(v: JsonView, keys: Seq<Seq<char>>) -> Option<Seq<char>> {
    match ocr_items(v, keys) {
        None => None,
        Some(items) => {
            let t = join_lines(item_words(items));
            if t.len() == 0 {
                None
            } else {
                Some(t)
            }
        },
    }
}

/// The whole text of a parsed result, when it has no rows or paragraphs.
pub open spec fn content_of(p: JsonView) -> Option<Seq<char>> {
    let c = match p.get("content"@) {
        Some(x) => Some(x),
        None => p.get("Content"@),
    };
    match c {
        Some(x) => match x.as_str() {
            Some(s) => trimmed_nonempty(s),
            None => None,
        },
        None => None,
    }
}

/// The text of a parsed result: its rows, else its paragraphs, else its whole text, else
/// its words.
pub open spec fn parsed_text(p: JsonView) -> Option<Seq<char>> {
    if join_ocr_items_spec(p, row_keys()) is Some {
        join_ocr_items_spec(p, row_keys())
    } else if join_ocr_items_spec(p, paragraph_keys()) is Some {
        join_ocr_items_spec(p, paragraph_keys())
    } else if content_of(p) is Some {
        content_of(p)
    } else {
        join_ocr_items_spec(p, word_keys())
    }
}

/// The text of an OCR answer: its `Data` (or `data`) result, which may itself be JSON
/// written in a string; a string that is not JSON is taken as the whole text.
pub open spec fn ocr_text_spec(response: JsonView) -> Option<Seq<char>> {
    let data = match response.get("Data"@) {
        Some(d) => Some(d),
        None => response.get("data"@),
    };
    match data {
        None => None,
        Some(JsonView::String(v)) => match serde_json_parse(v) {
            Some(p) => parsed_text(p),
            None => trimmed_nonempty(v),
        },
        Some(other) => parsed_text(other),
    }
}

/// The views of optional strings.
pub open spec fn opt_str(o: Option<String>) -> Option<Seq<char>> {
    match o {
        Some(s) => Some(s@),
        None => None,
    }
}

/// The array listed under the first of `keys` under which `value` holds one.
#[verifier::rlimit(60)]
fn find_items<'a>(value: &'a Json, keys: &[&str]) -> (r: Option<&'a Vec<Json>>)
    ensures
        match r {
            Some(items) => ocr_items(value@, key_views(keys@)) == Some(view_items(items@)),
            None => ocr_items(value@, key_views(keys@)) is None,
        },
{
    let ghost all = key_views(keys@);
    assert(all.skip(0) =~= all);
    let mut k: usize = 0;
    while k < keys.len()
        invariant
            all == key_views(keys@),
            k <= keys.len(),
            ocr_items(value@, all) == ocr_items(value@, all.skip(k as int)),
        decreases keys.len() - k,
    {
        let ghost rest = all.skip(k as int);
        assert(rest[0] == keys@[k as int]@);
        assert(rest.drop_first() =~= all.skip(k + 1));
        let v = value.get(keys[k]);
        match v {
            Some(x) => {
                proof {
                    lemma_view_array(*x);
                }
                match x {
                    Json::Array(items) => {
                        return Some(items);
                    },
                    _ => {},
                }
            },
            None => {},
        }
        k = k + 1;
    }
    assert(all.skip(k as int) =~= Seq::<Seq<char>>::empty());
    None
}

/// The text of one item (see `item_word`).
fn item_text(item: &Json) -> (r: Option<String>)
    ensures
        opt_str(r) == item_word(item@),
{
    let w = match item.get("word") {
        Some(x) => Some(x),
        None => item.get("text"),
    };
    match w {
        Some(x) => match x.as_str() {
            Some(s) => trim_nonempty(s),
            None => None,
        },
        None => None,
    }
}

/// The texts of the items that have one, in order.
fn item_texts(items: &Vec<Json>) -> (r: Vec<String>)
    ensures
        views_of(r@) == item_words(view_items(items@)),
{
    proof {
        lemma_view_items(items@);
    }
    let ghost iv = view_items(items@);
    let mut parts: Vec<String> = Vec::new();
    let mut i: usize = 0;
    while i < items.len()
        invariant
            iv == view_items(items@),
            iv.len() == items@.len(),
            forall|j: int| 0 <= j < items@.len() ==> #[trigger] iv[j] == items@[j]@,
            i <= items.len(),
            views_of(parts@) == item_words(iv.take(i as int)),
        decreases items.len() - i,
    {
        assert(iv.take(i + 1).drop_last() =~= iv.take(i as int));
        assert(iv.take(i + 1).last() == items@[i as int]@);
        match item_text(&items[i]) {
            Some(t) => {
                let ghost before = views_of(parts@);
                parts.push(t);
                assert(views_of(parts@) =~= before.push(t@));
            },
            None => {},
        }
        i = i + 1;
    }
    assert(iv.take(items.len() as int) =~= iv);
    parts
}

/// The item texts listed under the first of `keys` that holds an array, one per line.
pub fn join_ocr_items(value: &Json, keys: &[&str]) -> (r: Option<String>)
    ensures
        opt_str(r) == join_ocr_items_spec(value@, key_views(keys@)),
{
    let items = match find_items(value, keys) {
        Some(items) => items,
        None => {
            return None;
        },
    };
    let parts = item_texts(items);
    let joined = join_with_newlines(&parts);
    if joined.as_str().is_empty() {
        None
    } else {
        Some(joined)
    }
}


/// The text of a parsed result (see `parsed_text`).
fn parsed_ocr_text(p: &Json) -> (r: Option<String>)
    ensures
        opt_str(r) == parsed_text(p@),
{
    let rows: [&str; 3] = ["prism_rowsInfo", "rowsInfo", "RowsInfo"];
    let paragraphs: [&str; 3] = ["prism_paragraphsInfo", "paragraphsInfo", "ParagraphsInfo"];
    let words: [&str; 3] = ["prism_wordsInfo", "wordsInfo", "WordsInfo"];
    assert(key_views(rows@) =~= row_keys());
    assert(key_views(paragraphs@) =~= paragraph_keys());
    assert(key_views(words@) =~= word_keys());
    let by_rows = join_ocr_items(p, &rows);
    if by_rows.is_some() {
        return by_rows;
    }
    let by_paragraphs = join_ocr_items(p, &paragraphs);
    if by_paragraphs.is_some() {
        return by_paragraphs;
    }
    let content = match p.get("content") {
        Some(x) => Some(x),
        None => p.get("Content"),
    };
    let whole = match content {
        Some(x) => match x.as_str() {
            Some(s) => trim_nonempty(s),
            None => None,
        },
        None => None,
    };
    if whole.is_some() {
        return whole;
    }
    join_ocr_items(p, &words)
}

/// The recognised text of an Aliyun OCR answer (see `ocr_text_spec`).
pub fn extract_ocr_text(response: &Json) -> (r: Option<String>)
    ensures
        opt_str(r) == ocr_text_spec(response@),
{
    let data = match response.get("Data") {
        Some(d) => Some(d),
        None => response.get("data"),
    };
    let data = match data {
        Some(d) => d,
        None => {
            return None;
        },
    };
    proof {
        lemma_view_array(*data);
    }
    match data {
        Json::String(v) => match parse_json(v.as_str()) {
            Some(parsed) => parsed_ocr_text(&parsed),
            None => trim_nonempty(v.as_str()),
        },
        other => parsed_ocr_text(other),
    }
}

} // verus!
