//! Reading the expense fields out of a model's answer.
use vstd::prelude::*;

use crate::amount::{cents_spec, decimal_to_cents, valid_date, valid_date_spec};
use crate::json::{
    lemma_view_array, lemma_view_entries, opt_json_view, opt_string_view, parse_json, serde_json_parse,
    serde_json_pretty, to_string_pretty, view_entries, Json, JsonView,
};
use crate::text::{
    chars_of, is_whitespace_spec, lemma_trim_bounds, owned, same_text, trim, trim_nonempty, trim_spec, trimmed_nonempty,
    views_of,
};

verus! {

/// One step of the scan for a JSON object: the nesting depth, whether the scan is inside
/// a string, and whether the previous character inside a string was a backslash.
pub open spec fn scan_step(st: (int, bool, bool), c: char) -> (int, bool, bool) {
    if st.1 {
        if st.2 {
            (st.0, true, false)
        } else if c == '\\' {
            (st.0, true, true)
        } else if c == '"' {
            (st.0, false, false)
        } else {
            (st.0, true, false)
        }
    } else if c == '"' {
        (st.0, true, false)
    } else if c == '{' {
        (st.0 + 1, false, false)
    } else if c == '}' {
        (st.0 - 1, false, false)
    } else {
        st
    }
}

/// The scan state after the characters `s[start + 1 .. k]`, starting inside the object
/// opened at `start`.
pub open spec fn scan_state(s: Seq<char>, start: int, k: int) -> (int, bool, bool)
    decreases k - start,
{
    if k <= start + 1 {
        (1, false, false)
    } else {
        scan_step(scan_state(s, start, k - 1), s[k - 1])
    }
}

/// The `}` at `e` closes the object opened at `start`.
pub open spec fn closes_at(s: Seq<char>, start: int, e: int) -> bool {
    &&& start < e < s.len()
    &&& s[e] == '}'
    &&& !scan_state(s, start, e).1
    &&& scan_state(s, start, e).0 == 1
}

/// The `}` at `e` is the first one that closes the object opened at `start`.
pub open spec fn first_close(s: Seq<char>, start: int, e: int) -> bool {
    closes_at(s, start, e) && forall|k: int| start < k < e ==> !#[trigger] closes_at(s, start, k)
}

/// `i` is the position of the first `{` in `s`.
pub open spec fn is_first_brace(s: Seq<char>, i: int) -> bool {
    0 <= i < s.len() && s[i] == '{' && forall|j: int| 0 <= j < i ==> s[j] != '{'
}

/// The first balanced `{ … }` of `s`: from its first `{` to the `}` that closes it,
/// with braces inside JSON strings (and escaped quotes) not counted.
pub open spec fn first_json_object_spec(s: Seq<char>) -> Option<Seq<char>> {
    if exists|i: int| is_first_brace(s, i) {
        let start = choose|i: int| is_first_brace(s, i);
        if exists|e: int| first_close(s, start, e) {
            let e = choose|e: int| first_close(s, start, e);
            Some(s.subrange(start, e + 1))
        } else {
            None
        }
    } else {
        None
    }
}

proof fn lemma_first_brace_unique(s: Seq<char>, a: int, b: int)
    requires
        is_first_brace(s, a),
        is_first_brace(s, b),
    ensures
        a == b,
{
    if a < b {
        assert(s[a] != '{');
    } else if b < a {
        assert(s[b] != '{');
    }
}

proof fn lemma_first_close_unique(s: Seq<char>, start: int, a: int, b: int)
    requires
        first_close(s, start, a),
        first_close(s, start, b),
    ensures
        a == b,
{
    if a < b {
        assert(!closes_at(s, start, a));
    } else if b < a {
        assert(!closes_at(s, start, b));
    }
}

/// The scan of `t` is the scan of any text that holds `t` at offset `off`.
proof fn lemma_scan_shift(s: Seq<char>, t: Seq<char>, off: int, start: int, k: int)
    requires
        0 <= off,
        off + t.len() <= s.len(),
        s.subrange(off, off + t.len()) == t,
        0 <= start,
        k <= t.len(),
    ensures
        scan_state(s, start + off, k + off) == scan_state(t, start, k),
    decreases k - start,
{
    if k > start + 1 {
        lemma_scan_shift(s, t, off, start, k - 1);
        assert(s[k - 1 + off] == t[k - 1]);
    }
}

/// The first balanced JSON object in `content`, e.g. the object between a model's
/// explanation and its closing remarks; `None` when there is no `{` or it never closes.
pub fn first_json_object(content: &str) -> (r: Option<&str>)
    ensures
        match first_json_object_spec(content@) {
            Some(t) => r matches Some(x) && x@ == t,
            None => r is None,
        },
{
    let cs = chars_of(content);
    let ghost s = cs@;
    let mut i: usize = 0;
    while i < cs.len() && cs[i] != '{'
        invariant
            i <= cs.len(),
            forall|j: int| 0 <= j < i ==> cs@[j] != '{',
        decreases cs.len() - i,
    {
        i = i + 1;
    }
    if i == cs.len() {
        assert forall|j: int| !is_first_brace(s, j) by {
            if 0 <= j < s.len() {
                assert(cs@[j] != '{');
            }
        }
        return None;
    }
    let start = i;
    assert(is_first_brace(s, start as int));
    proof {
        let c = choose|j: int| is_first_brace(s, j);
        lemma_first_brace_unique(s, c, start as int);
    }
    let mut depth: usize = 1;
    let mut in_string = false;
    let mut escaped = false;
    let mut k: usize = start + 1;
    while k < cs.len()
        invariant
            s == cs@,
            s == content@,
            is_first_brace(s, start as int),
            start == choose|j: int| is_first_brace(s, j),
            start < k <= cs.len(),
            s[start as int] == '{',
            1 <= depth <= k - start,
            (depth as int, in_string, escaped) == scan_state(s, start as int, k as int),
            !in_string ==> !escaped,
            forall|m: int| start < m < k ==> !#[trigger] closes_at(s, start as int, m),
        decreases cs.len() - k,
    {
        let c = cs[k];
        assert(scan_state(s, start as int, k + 1) == scan_step(scan_state(s, start as int, k as int), c));
        if in_string {
            if escaped {
                escaped = false;
            } else if c == '\\' {
                escaped = true;
            } else if c == '"' {
                in_string = false;
            }
        } else if c == '"' {
            in_string = true;
        } else if c == '{' {
            depth = depth + 1;
        } else if c == '}' {
            if depth == 1 {
                assert(first_close(s, start as int, k as int));
                proof {
                    let e = choose|e: int| first_close(s, start as int, e);
                    lemma_first_close_unique(s, start as int, e, k as int);
                }
                return Some(content.substring_char(start, k + 1));
            }
            depth = depth - 1;
        }
        k = k + 1;
    }
    assert forall|e: int| !first_close(s, start as int, e) by {
        if first_close(s, start as int, e) {
            assert(!closes_at(s, start as int, e));
        }
    }
    None
}


/// The expense fields read from a model answer.
#[derive(Debug)]
pub struct ExtractedExpense {
    pub occurred_date: Option<String>,
    pub reason_name: Option<String>,
    pub description: Option<String>,
    pub amount_cents: Option<i64>,
    pub confidence: Json,
    pub evidence: Json,
}

/// The trimmed text of entry `key`, when it is a string that is not blank.
pub open spec fn optional_string_spec(v: JsonView, key: Seq<char>) -> Option<Seq<char>> {
    match v.get(key) {
        Some(x) => match x.as_str() {
            Some(s) => trimmed_nonempty(s),
            None => None,
        },
        None => None,
    }
}

/// The amount in cents written in entry `amount`, as a string or as a number.
pub open spec fn amount_spec(v: JsonView) -> Option<i64> {
    match v.get("amount"@) {
        Some(JsonView::String(s)) => cents_spec(s),
        Some(JsonView::Number(n)) => cents_spec(n),
        _ => None,
    }
}

/// The value of an entry, or an empty object when there is none.
pub open spec fn or_empty_object(o: Option<JsonView>) -> JsonView {
    match o {
        Some(x) => x,
        None => JsonView::Object(Seq::empty()),
    }
}

/// `x` holds what the parsed answer `v` states: a date only when it is a valid one, a
/// reason only when it is in the dictionary `reasons`, the description, the amount in
/// cents, and the confidence and evidence objects (empty when missing).
pub open spec fn expense_fields(v: JsonView, reasons: Seq<Seq<char>>, x: ExtractedExpense) -> bool {
    &&& opt_string_view(x.occurred_date) == match optional_string_spec(v, "occurredDate"@) {
        Some(d) => if valid_date_spec(d) {
            Some(d)
        } else {
            None
        },
        None => None,
    }
    &&& opt_string_view(x.reason_name) == match optional_string_spec(v, "reasonName"@) {
        Some(n) => if reasons.contains(n) {
            Some(n)
        } else {
            None
        },
        None => None,
    }
    &&& opt_string_view(x.description) == optional_string_spec(v, "description"@)
    &&& x.amount_cents == amount_spec(v)
    &&& x.confidence@ == or_empty_object(v.get("confidence"@))
    &&& x.evidence@ == or_empty_object(v.get("evidence"@))
}

/// What reading a model answer `content` gives: the first JSON object of the trimmed
/// answer, parsed, with its fields checked; otherwise the reason it failed.
pub open spec fn extraction_spec(content: Seq<char>, reasons: Seq<Seq<char>>, r: Result<ExtractedExpense, String>) -> bool {
    let t = trim_spec(content);
    match first_json_object_spec(t) {
        None => r matches Err(m) && m@ == if t.contains('{') {
            "大模型返回的 JSON 对象不完整"@
        } else {
            "大模型没有返回 JSON 对象"@
        },
        Some(object) => match serde_json_parse(object) {
            None => r matches Err(m) && m@ == "大模型返回的 JSON 格式无效"@,
            Some(v) => r matches Ok(x) && expense_fields(v, reasons, x),
        },
    }
}

/// The trimmed text of entry `key`, when it is a string that is not blank.
pub fn optional_string(value: &Json, key: &str) -> (r: Option<String>)
    ensures
        opt_string_view(r) == optional_string_spec(value@, key@),
{
    match value.get(key) {
        Some(x) => match x.as_str() {
            Some(s) => trim_nonempty(s),
            None => None,
        },
        None => None,
    }
}

/// Whether `c` occurs in `s`.
fn contains_char(s: &str, c: char) -> (r: bool)
    ensures
        r == s@.contains(c),
{
    let cs = chars_of(s);
    let mut i: usize = 0;
    while i < cs.len()
        invariant
            cs@ == s@,
            i <= cs.len(),
            forall|j: int| 0 <= j < i ==> cs@[j] != c,
        decreases cs.len() - i,
    {
        if cs[i] == c {
            return true;
        }
        i = i + 1;
    }
    false
}

/// Whether `name` is one of `reasons`.
fn in_dictionary(name: &str, reasons: &[String]) -> (r: bool)
    ensures
        r == views_of(reasons@).contains(name@),
{
    let ghost rv = views_of(reasons@);
    let mut i: usize = 0;
    while i < reasons.len()
        invariant
            rv == views_of(reasons@),
            i <= reasons.len(),
            forall|j: int| 0 <= j < i ==> rv[j] != name@,
        decreases reasons.len() - i,
    {
        if same_text(reasons[i].as_str(), name) {
            assert(rv[i as int] == name@);
            return true;
        }
        i = i + 1;
    }
    false
}

/// A copy of entry `key`, or an empty object when there is none.
fn entry_or_empty(value: &Json, key: &str) -> (r: Json)
    ensures
        r@ == or_empty_object(value@.get(key@)),
{
    match value.get(key) {
        Some(x) => x.copy(),
        None => {
            let empty: Vec<(String, Json)> = Vec::new();
            proof {
                lemma_view_entries(empty@);
            }
            assert(view_entries(empty@) =~= Seq::<(Seq<char>, JsonView)>::empty());
            Json::Object(empty)
        },
    }
}

/// The amount in cents written in entry `amount`.
fn amount_of(value: &Json) -> (r: Option<i64>)
    ensures
        r == amount_spec(value@),
{
    match value.get("amount") {
        Some(x) => match x {
            Json::String(s) => decimal_to_cents(s.as_str()),
            Json::Number(n) => decimal_to_cents(n.as_str()),
            _ => None,
        },
        None => None,
    }
}

/// Reads the expense fields out of a model answer: the first JSON object in it, parsed,
/// with a date kept only when valid and a reason kept only when it is in `reasons`.
pub fn parse_extracted_expense(content: &str, reasons: &[String]) -> (r: Result<ExtractedExpense, String>)
    ensures
        extraction_spec(content@, views_of(reasons@), r),
{
    let trimmed = trim(content);
    let object = match first_json_object(trimmed) {
        Some(o) => o,
        None => {
            if contains_char(trimmed, '{') {
                return Err("大模型返回的 JSON 对象不完整".to_string());
            } else {
                return Err("大模型没有返回 JSON 对象".to_string());
            }
        },
    };
    let value = match parse_json(object) {
        Some(v) => v,
        None => {
            return Err("大模型返回的 JSON 格式无效".to_string());
        },
    };
    let occurred_date = match optional_string(&value, "occurredDate") {
        Some(d) => if valid_date(d.as_str()) {
            Some(d)
        } else {
            None
        },
        None => None,
    };
    let reason_name = match optional_string(&value, "reasonName") {
        Some(n) => if in_dictionary(n.as_str(), reasons) {
            Some(n)
        } else {
            None
        },
        None => None,
    };
    let description = optional_string(&value, "description");
    let amount_cents = amount_of(&value);
    let confidence = entry_or_empty(&value, "confidence");
    let evidence = entry_or_empty(&value, "evidence");
    Ok(ExtractedExpense { occurred_date, reason_name, description, amount_cents, confidence, evidence })
}

/// The record kept of a model answer: its first JSON object, parsed and pretty-printed;
/// otherwise the trimmed answer.
pub open spec fn normalized_record_spec(content: Seq<char>) -> Seq<char> {
    match first_json_object_spec(content) {
        Some(object) => match serde_json_parse(object) {
            Some(v) => serde_json_pretty(v),
            None => trim_spec(content),
        },
        None => trim_spec(content),
    }
}

/// The record kept of a model answer (see `normalized_record_spec`).
pub fn normalized_json_record(content: &str) -> (r: String)
    ensures
        r@ == normalized_record_spec(content@),
{
    match first_json_object(content) {
        Some(object) => match parse_json(object) {
            Some(v) => match to_string_pretty(&v) {
                Some(p) => p,
                None => owned(trim(content)),
            },
            None => owned(trim(content)),
        },
        None => owned(trim(content)),
    }
}


/// The object found in an answer is a stretch of the answer that opens with `{` and
/// ends with the `}` that closes it.
pub proof fn law_first_json_object_is_closed_span(s: Seq<char>)
    ensures
        first_json_object_spec(s) matches Some(t) ==> {
            &&& t.len() >= 2
            &&& t[0] == '{'
            &&& t[t.len() - 1] == '}'
            &&& exists|start: int| 0 <= start && start + t.len() <= s.len() && #[trigger] s.subrange(start, start + t.len()) == t
        },
{
    if first_json_object_spec(s) is Some {
        let start = choose|i: int| is_first_brace(s, i);
        let e = choose|e: int| first_close(s, start, e);
        let t = s.subrange(start, e + 1);
        assert(t[0] == s[start]);
        assert(t[t.len() - 1] == s[e]);
        assert(s.subrange(start, start + t.len()) == t);
    }
}

/// The first object of an answer does not depend on the whitespace around the answer, so
/// the record kept of an answer is the object whose fields were read from it.
pub proof fn law_first_object_ignores_surrounding_whitespace(s: Seq<char>)
    ensures
        first_json_object_spec(trim_spec(s)) == first_json_object_spec(s),
{
    let (a, b) = lemma_trim_bounds(s);
    let t = trim_spec(s);
    assert(t.len() == b - a);
    assert forall|j: int| 0 <= j < t.len() implies #[trigger] t[j] == s[j + a] by {}
    if exists|i: int| is_first_brace(t, i) {
        let i = choose|i: int| is_first_brace(t, i);
        let st = a + i;
        assert(is_first_brace(s, st)) by {
            assert(s[a + i] == t[i]);
            assert forall|j: int| 0 <= j < a + i implies s[j] != '{' by {
                if j < a {
                    assert(is_whitespace_spec(s[j]));
                } else {
                    assert(s[j] == t[j - a]);
                }
            }
        }
        let si = choose|j: int| is_first_brace(s, j);
        lemma_first_brace_unique(s, si, a + i);
        assert forall|e: int| i < e < t.len() implies #[trigger] closes_at(t, i, e) == closes_at(s, st, a + e) by {
            lemma_scan_shift(s, t, a, i, e);
            assert(s[a + e] == t[e]);
        }
        assert forall|e: int| #[trigger] closes_at(s, st, e) implies e < b by {
            if e >= b {
                assert(is_whitespace_spec(s[e]));
            }
        }
        if exists|e: int| first_close(t, i, e) {
            let e = choose|e: int| first_close(t, i, e);
            assert(first_close(s, st, a + e)) by {
                assert(closes_at(t, i, e));
                assert forall|k: int| st < k < a + e implies !#[trigger] closes_at(s, st, k) by {
                    assert(closes_at(t, i, k - a) == closes_at(s, st, k));
                    assert(!closes_at(t, i, k - a));
                }
            }
            let se = choose|e: int| first_close(s, st, e);
            lemma_first_close_unique(s, st, se, a + e);
            assert(s.subrange(st, a + e + 1) =~= t.subrange(i, e + 1));
        } else {
            assert forall|e: int| !first_close(s, st, e) by {
                if first_close(s, st, e) {
                    assert(closes_at(t, i, e - a) == closes_at(s, st, e));
                    assert forall|k: int| i < k < e - a implies !#[trigger] closes_at(t, i, k) by {
                        assert(closes_at(t, i, k) == closes_at(s, st, k + a));
                    }
                    assert(first_close(t, i, e - a));
                }
            }
        }
    } else {
        assert forall|j: int| !is_first_brace(s, j) by {
            if is_first_brace(s, j) {
                if j < a {
                    assert(is_whitespace_spec(s[j]));
                }
                if j >= b {
                    assert(is_whitespace_spec(s[j]));
                }
                assert(t[j - a] == s[j]);
                assert forall|m: int| 0 <= m < j - a implies t[m] != '{' by {
                    assert(t[m] == s[m + a]);
                }
                assert(is_first_brace(t, j - a));
            }
        }
    }
}

/// When the fields of an answer were read, the record kept of it is the very object they
/// were read from, pretty-printed.
pub proof fn law_record_is_the_object_read(content: Seq<char>, reasons: Seq<Seq<char>>, x: ExtractedExpense)
    requires
        extraction_spec(content, reasons, Ok(x)),
    ensures
        exists|v: JsonView| {
            &&& first_json_object_spec(content) matches Some(object) && serde_json_parse(object) == Some(v)
            &&& #[trigger] expense_fields(v, reasons, x)
            &&& normalized_record_spec(content) == serde_json_pretty(v)
        },
{
    law_first_object_ignores_surrounding_whitespace(content);
    let v = serde_json_parse(first_json_object_spec(trim_spec(content))->0)->0;
    assert(expense_fields(v, reasons, x));
}

/// The reason the answer names is kept exactly when the dictionary holds it: with a
/// non-blank `reasonName`, the kept reason is that name, trimmed, if it is any entry of the
/// dictionary, and nothing otherwise.
pub proof fn law_dictionary_reason_is_kept(
    content: Seq<char>,
    reasons: Seq<Seq<char>>,
    x: ExtractedExpense,
    v: JsonView,
    name: Seq<char>,
)
    requires
        extraction_spec(content, reasons, Ok(x)),
        first_json_object_spec(trim_spec(content)) matches Some(o) && serde_json_parse(o) == Some(v),
        v.get("reasonName"@) == Some(JsonView::String(name)),
        trim_spec(name).len() > 0,
    ensures
        (exists|i: int| 0 <= i < reasons.len() && reasons[i] == trim_spec(name)) <==> (x.reason_name matches Some(n)
            && n@ == trim_spec(name)),
        !(exists|i: int| 0 <= i < reasons.len() && reasons[i] == trim_spec(name)) ==> x.reason_name is None,
{
}

/// Whatever an answer says, a kept date is a valid calendar date, a kept reason is one of
/// the dictionary's, and a kept amount is not negative.
pub proof fn law_extracted_fields_are_checked(content: Seq<char>, reasons: Seq<Seq<char>>, r: Result<ExtractedExpense, String>)
    requires
        extraction_spec(content, reasons, r),
    ensures
        r matches Ok(x) ==> {
            &&& (x.occurred_date matches Some(d) ==> valid_date_spec(d@))
            &&& (x.reason_name matches Some(n) ==> reasons.contains(n@))
            &&& (x.amount_cents matches Some(c) ==> c >= 0)
        },
{
    if r is Ok {
        let x = r->Ok_0;
        let t = trim_spec(content);
        let v = serde_json_parse(first_json_object_spec(t)->0)->0;
        if x.amount_cents is Some {
            match v.get("amount"@) {
                Some(JsonView::String(a)) => crate::amount::law_cents_are_nonnegative(a),
                Some(JsonView::Number(a)) => crate::amount::law_cents_are_nonnegative(a),
                _ => {},
            }
        }
    }
}

} // verus!
