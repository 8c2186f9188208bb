//! Interpreting the accumulated primary-stream text as the terminal result.
//!
//! The text must parse as one JSON document; a non-empty `error` field makes
//! the run a semantic failure even when the child exited cleanly; otherwise
//! every field falls back to its default when absent, and malformed segment
//! entries are dropped rather than failing the whole parse.

use crate::json::{json_doc_of, parse_json_tree, JsonTree};
use crate::text::{parse_signed_milli, parse_signed_milli_spec};
use vstd::prelude::*;
use vstd::string::*;

verus! {

/// Every way one invocation can fail; each carries a human-readable message.
#[derive(Debug)]
pub enum TranscriptionError {
    /// The input could not be staged for the child.
    Staging(String),
    /// The child process could not be started.
    Spawn(String),
    /// The child's exit could not be observed.
    Wait(String),
    /// The primary-stream text is not JSON; carries that raw text.
    MalformedOutput(String),
    /// The child reported an error field; carries its message.
    TranscriptionFailed(String),
}

/// One transcribed span, with its bounds in thousandths of a second.
#[derive(Debug)]
pub struct Segment {
    pub start_milli: i64,
    pub end_milli: i64,
    pub text: String,
}

/// The terminal artifact returned to the caller.  Confidence is kept in
/// thousandths, so `900` stands for nine tenths.
#[derive(Debug)]
pub struct TranscriptionResult {
    pub text: String,
    pub confidence_milli: i64,
    pub language: Option<String>,
    pub segments: Option<Vec<Segment>>,
    pub error: Option<String>,
}

/// First entry of `es` whose key reads `key`.
pub open spec fn lookup_entries_spec(es: Seq<(String, JsonTree)>, key: Seq<char>) -> Option<
    JsonTree,
>
    decreases es.len(),
{
    if es.len() == 0 {
        None
    } else if es[0].0@ == key {
        Some(es[0].1)
    } else {
        lookup_entries_spec(es.drop_first(), key)
    }
}

/// The field `key` of `t`, when `t` is an object that has it.
pub open spec fn lookup_spec(t: JsonTree, key: Seq<char>) -> Option<JsonTree> {
    match t {
        JsonTree::Obj(es) => lookup_entries_spec(es@, key),
        _ => None,
    }
}

/// The semantic failure a document reports: a non-empty string under
/// `error`.
pub open spec fn error_msg_spec(t: JsonTree) -> Option<Seq<char>> {
    match lookup_spec(t, "error"@) {
        Some(e) => match e {
            JsonTree::Str(s) => if s@.len() > 0 {
                Some(s@)
            } else {
                None
            },
            _ => None,
        },
        None => None,
    }
}

/// The transcribed text: the string under `text`, empty when absent.
pub open spec fn text_spec(t: JsonTree) -> Seq<char> {
    match lookup_spec(t, "text"@) {
        Some(v) => match v {
            JsonTree::Str(s) => s@,
            _ => Seq::empty(),
        },
        None => Seq::empty(),
    }
}

/// The confidence in thousandths: the number under `confidence`, zero when
/// absent or unreadable.
pub open spec fn confidence_spec(t: JsonTree) -> int {
    match lookup_spec(t, "confidence"@) {
        Some(v) => match v {
            JsonTree::Num(n) => match parse_signed_milli_spec(n@) {
                Some(c) => c,
                None => 0,
            },
            _ => 0,
        },
        None => 0,
    }
}

/// The language, when the document names one.
pub open spec fn language_spec(t: JsonTree) -> Option<Seq<char>> {
    match lookup_spec(t, "language"@) {
        Some(v) => match v {
            JsonTree::Str(s) => Some(s@),
            _ => None,
        },
        None => None,
    }
}

/// One segment entry, read as (start, end, text) with times in thousandths
/// of a second; `None` when any required field is absent or unreadable.
pub open spec fn seg_of_spec(it: JsonTree) -> Option<(int, int, Seq<char>)> {
    match (lookup_spec(it, "start"@), lookup_spec(it, "end"@), lookup_spec(it, "text"@)) {
        (Some(a), Some(b), Some(c)) => match (a, b, c) {
            (JsonTree::Num(sa), JsonTree::Num(sb), JsonTree::Str(st)) => match (
                parse_signed_milli_spec(sa@),
                parse_signed_milli_spec(sb@),
            ) {
                (Some(x), Some(y)) => Some((x, y, st@)),
                _ => None,
            },
            _ => None,
        },
        _ => None,
    }
}

/// The readable segments of `items`, in the order encountered; malformed
/// entries are dropped.
pub open spec fn segs_of_spec(items: Seq<JsonTree>) -> Seq<(int, int, Seq<char>)>
    decreases items.len(),
{
    if items.len() == 0 {
        Seq::empty()
    } else {
        let rest = segs_of_spec(items.drop_last());
        match seg_of_spec(items.last()) {
            Some(sg) => rest.push(sg),
            None => rest,
        }
    }
}

/// The segment list, when the document has an array under `segments`.
pub open spec fn segments_spec(t: JsonTree) -> Option<Seq<(int, int, Seq<char>)>> {
    match lookup_spec(t, "segments"@) {
        Some(v) => match v {
            JsonTree::Arr(items) => Some(segs_of_spec(items@)),
            _ => None,
        },
        None => None,
    }
}

pub open spec fn seg_view(s: Segment) -> (int, int, Seq<char>) {
    (s.start_milli as int, s.end_milli as int, s.text@)
}

/// `res` is exactly what extraction of `t` yields when `t` reports no error.
pub open spec fn result_matches_tree(t: JsonTree, res: TranscriptionResult) -> bool {
    &&& res.text@ == text_spec(t)
    &&& res.confidence_milli as int == confidence_spec(t)
    &&& match language_spec(t) {
        Some(v) => res.language matches Some(l) && l@ == v,
        None => res.language is None,
    }
    &&& match segments_spec(t) {
        Some(sp) => res.segments matches Some(sv) && sv@.len() == sp.len() && (forall|i: int|
            0 <= i < sp.len() ==> seg_view(#[trigger] sv@[i]) == sp[i]),
        None => res.segments is None,
    }
    &&& res.error is None
}

/// What extracting from a parsed document must yield: the reported error as
/// a semantic failure, else the assembled result.
pub open spec fn extraction_post(
    t: JsonTree,
    r: Result<TranscriptionResult, TranscriptionError>,
) -> bool {
    match error_msg_spec(t) {
        Some(m) => r matches Err(TranscriptionError::TranscriptionFailed(msg)) && msg@ == m,
        None => r matches Ok(res) && result_matches_tree(t, res),
    }
}

fn lookup_entries<'a>(es: &'a Vec<(String, JsonTree)>, key: &String) -> (r: Option<&'a JsonTree>)
    ensures
        match lookup_entries_spec(es@, key@) {
            Some(v) => r matches Some(rv) && *rv == v,
            None => r is None,
        },
{
    let len = es.len();
    let mut i: usize = 0;
    proof {
        assert(es@.subrange(0, len as int) =~= es@);
    }
    while i < len
        invariant
            i <= len,
            len == es@.len(),
            lookup_entries_spec(es@, key@) == lookup_entries_spec(
                es@.subrange(i as int, len as int),
                key@,
            ),
        decreases len - i,
    {
        let pair = &es[i];
        proof {
            assert(es@.subrange(i as int, len as int)[0] == es@[i as int]);
            assert(es@.subrange(i as int, len as int).drop_first() =~= es@.subrange(
                i as int + 1,
                len as int,
            ));
        }
        if pair.0 == *key {
            return Some(&pair.1);
        }
        i += 1;
    }
    None
}

fn lookup<'a>(t: &'a JsonTree, key: &String) -> (r: Option<&'a JsonTree>)
    ensures
        match lookup_spec(*t, key@) {
            Some(v) => r matches Some(rv) && *rv == v,
            None => r is None,
        },
{
    match t {
        JsonTree::Obj(es) => lookup_entries(es, key),
        _ => None,
    }
}

fn seg_of(it: &JsonTree) -> (r: Option<Segment>)
    ensures
        match seg_of_spec(*it) {
            Some(sg) => r matches Some(s) && seg_view(s) == sg,
            None => r is None,
        },
{
    let kstart = String::from_str("start");
    let kend = String::from_str("end");
    let ktext = String::from_str("text");
    let start_field = lookup(it, &kstart);
    let end_field = lookup(it, &kend);
    let text_field = lookup(it, &ktext);
    match (start_field, end_field, text_field) {
        (Some(JsonTree::Num(sa)), Some(JsonTree::Num(sb)), Some(JsonTree::Str(st))) => {
            match (parse_signed_milli(sa.as_str()), parse_signed_milli(sb.as_str())) {
                (Some(x), Some(y)) => Some(
                    Segment { start_milli: x, end_milli: y, text: st.clone() },
                ),
                _ => None,
            }
        },
        _ => None,
    }
}

fn segs_of(items: &Vec<JsonTree>) -> (r: Vec<Segment>)
    ensures
        r@.len() == segs_of_spec(items@).len(),
        forall|i: int|
            0 <= i < r@.len() ==> seg_view(#[trigger] r@[i]) == segs_of_spec(items@)[i],
{
    let len = items.len();
    let mut out: Vec<Segment> = Vec::new();
    let mut i: usize = 0;
    proof {
        assert(items@.subrange(0, 0) =~= Seq::<JsonTree>::empty());
    }
    while i < len
        invariant
            i <= len,
            len == items@.len(),
            out@.len() == segs_of_spec(items@.subrange(0, i as int)).len(),
            forall|k: int|
                0 <= k < out@.len() ==> seg_view(#[trigger] out@[k]) == segs_of_spec(
                    items@.subrange(0, i as int),
                )[k],
        decreases len - i,
    {
        let item = &items[i];
        proof {
            let pre = items@.subrange(0, i as int);
            let post = items@.subrange(0, i as int + 1);
            assert(post.drop_last() =~= pre);
            assert(post.last() == items@[i as int]);
        }
        match seg_of(item) {
            Some(sg) => {
                out.push(sg);
            },
            None => {},
        }
        i += 1;
    }
    proof {
        assert(items@.subrange(0, len as int) =~= items@);
    }
    out
}

/// Assembles the result from a parsed document: the reported `error` field
/// wins over everything; otherwise absent fields fall back to their
/// defaults, and malformed segment entries are dropped.
pub fn extract_from_tree(t: &JsonTree) -> (r: Result<TranscriptionResult, TranscriptionError>)
    ensures
        extraction_post(*t, r),
{
    let kerror = String::from_str("error");
    match lookup(t, &kerror) {
        Some(JsonTree::Str(s)) => {
            if s.as_str().unicode_len() > 0 {
                return Err(TranscriptionError::TranscriptionFailed(s.clone()));
            }
        },
        _ => {},
    }
    let ktext = String::from_str("text");
    let text: String = match lookup(t, &ktext) {
        Some(JsonTree::Str(s)) => s.clone(),
        _ => String::new(),
    };
    let kconf = String::from_str("confidence");
    let confidence_milli: i64 = match lookup(t, &kconf) {
        Some(JsonTree::Num(n)) => match parse_signed_milli(n.as_str()) {
            Some(c) => c,
            None => 0,
        },
        _ => 0,
    };
    let klang = String::from_str("language");
    let language: Option<String> = match lookup(t, &klang) {
        Some(JsonTree::Str(s)) => Some(s.clone()),
        _ => None,
    };
    let ksegs = String::from_str("segments");
    let segments: Option<Vec<Segment>> = match lookup(t, &ksegs) {
        Some(JsonTree::Arr(items)) => Some(segs_of(items)),
        _ => None,
    };
    Ok(TranscriptionResult { text, confidence_milli, language, segments, error: None })
}

/// Interprets the accumulated primary-stream text: not JSON at all is a
/// malformed-output failure carrying the raw text; a parsed document is
/// extracted field by field.
pub fn extract_result(raw: &str) -> (r: Result<TranscriptionResult, TranscriptionError>)
    ensures
        match json_doc_of(raw@) {
            None => r matches Err(TranscriptionError::MalformedOutput(m)) && m@ == raw@,
            Some(t) => extraction_post(t, r),
        },
{
    match parse_json_tree(raw) {
        Some(t) => extract_from_tree(&t),
        None => Err(TranscriptionError::MalformedOutput(String::from_str(raw))),
    }
}

} // verus!
