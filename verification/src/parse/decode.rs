//! Decoding one parsed JSON value into the diagnostic model. A value that
//! does not fit the schema gives nothing back; the stream parser then drops
//! it as noise. The decoders also establish the model's invariant: a
//! highlight range read from the stream is kept only when it is a range, so
//! every decoded diagnostic is well-formed.

use vstd::prelude::*;

use crate::json::json_as_array;
use crate::json::json_as_bool;
use crate::json::json_as_str;
use crate::json::json_as_u64;
use crate::json::json_get;
use crate::json::json_is_null;
use crate::json::parse_json;

use super::Code;
use super::Level;
use super::Message;
use super::Reason;
use super::Span;
use super::Text;

verus! {

fn u64_to_usize(x: u64) -> Option<usize> {
    if x <= usize::MAX as u64 {
        Some(x as usize)
    } else {
        None
    }
}

/// The named rule of a message: absent or null is no rule; an object with a
/// string under `code` is that rule; anything else is a schema violation.
fn opt_code_from_value(v: &serde_json::Value) -> Option<Option<Code>> {
    match json_get(v, "code") {
        None => Some(None),
        Some(cv) => {
            if json_is_null(cv) {
                Some(None)
            } else {
                match json_get(cv, "code") {
                    Some(inner) => match json_as_str(inner) {
                        Some(s) => Some(Some(Code { code: s.to_owned() })),
                        None => None,
                    },
                    None => None,
                }
            }
        },
    }
}

/// One covered source line: the raw text and its 1-indexed highlight byte
/// offsets. An inverted range is a schema violation and is rejected, which
/// gives every decoded line the model's invariant.
fn text_from_value(v: &serde_json::Value) -> (r: Option<Text>)
    ensures
        r is Some ==> r->0.wf(),
{
    let hs = match json_get(v, "highlight_start") {
        Some(x) => match json_as_u64(x) {
            Some(n) => match u64_to_usize(n) {
                Some(n) => n,
                None => {
                    return None;
                },
            },
            None => {
                return None;
            },
        },
        None => {
            return None;
        },
    };
    let he = match json_get(v, "highlight_end") {
        Some(x) => match json_as_u64(x) {
            Some(n) => match u64_to_usize(n) {
                Some(n) => n,
                None => {
                    return None;
                },
            },
            None => {
                return None;
            },
        },
        None => {
            return None;
        },
    };
    if hs > he {
        return None;
    }
    let text = match json_get(v, "text") {
        Some(x) => match json_as_str(x) {
            Some(s) => s.to_owned(),
            None => {
                return None;
            },
        },
        None => {
            return None;
        },
    };
    Some(Text { highlight_start: hs, highlight_end: he, text })
}

/// One source span: its file, 1-indexed start position, and covered lines.
fn span_from_value(v: &serde_json::Value) -> (r: Option<Span>)
    ensures
        r is Some ==> r->0.wf(),
{
    let file_name = match json_get(v, "file_name") {
        Some(x) => match json_as_str(x) {
            Some(s) => s.to_owned(),
            None => {
                return None;
            },
        },
        None => {
            return None;
        },
    };
    let line_start = match json_get(v, "line_start") {
        Some(x) => match json_as_u64(x) {
            Some(n) => match u64_to_usize(n) {
                Some(n) => n,
                None => {
                    return None;
                },
            },
            None => {
                return None;
            },
        },
        None => {
            return None;
        },
    };
    let column_start = match json_get(v, "column_start") {
        Some(x) => match json_as_u64(x) {
            Some(n) => match u64_to_usize(n) {
                Some(n) => n,
                None => {
                    return None;
                },
            },
            None => {
                return None;
            },
        },
        None => {
            return None;
        },
    };
    let texts = match json_get(v, "text") {
        Some(x) => match json_as_array(x) {
            Some(arr) => arr,
            None => {
                return None;
            },
        },
        None => {
            return None;
        },
    };
    let n = texts.len();
    let mut text: Vec<Text> = Vec::new();
    let mut i: usize = 0;
    while i < n
        invariant
            n == texts@.len(),
            i <= n,
            forall|j: int| 0 <= j < text@.len() ==> (#[trigger] text@[j]).wf(),
        decreases n - i,
    {
        match text_from_value(&texts[i]) {
            Some(t) => text.push(t),
            None => {
                return None;
            },
        }
        i += 1;
    }
    Some(Span { column_start, line_start, file_name, text })
}

/// One message, recursively through its children. The nesting depth of a
/// value parsed from a document of `fuel` bytes is below `fuel`, so the
/// fuel never runs out on a value that `parse_json` produced from the line
/// it is called with.
pub(crate) fn message_from_value(v: &serde_json::Value, fuel: usize) -> (r: Option<Message>)
    ensures
        r is Some ==> r->0.wf(),
    decreases fuel,
{
    if fuel == 0 {
        return None;
    }
    let text = match json_get(v, "message") {
        Some(x) => match json_as_str(x) {
            Some(s) => s.to_owned(),
            None => {
                return None;
            },
        },
        None => {
            return None;
        },
    };
    let level = match json_get(v, "level") {
        Some(x) => match json_as_str(x) {
            Some(s) => Level::from_str(s),
            None => {
                return None;
            },
        },
        None => {
            return None;
        },
    };
    let code = match opt_code_from_value(v) {
        Some(c) => c,
        None => {
            return None;
        },
    };
    let span_values = match json_get(v, "spans") {
        Some(x) => match json_as_array(x) {
            Some(arr) => arr,
            None => {
                return None;
            },
        },
        None => {
            return None;
        },
    };
    let mut spans: Vec<Span> = Vec::new();
    let ns = span_values.len();
    let mut i: usize = 0;
    while i < ns
        invariant
            ns == span_values@.len(),
            i <= ns,
            forall|j: int| 0 <= j < spans@.len() ==> (#[trigger] spans@[j]).wf(),
        decreases ns - i,
    {
        match span_from_value(&span_values[i]) {
            Some(s) => spans.push(s),
            None => {
                return None;
            },
        }
        i += 1;
    }
    let child_values = match json_get(v, "children") {
        Some(x) => match json_as_array(x) {
            Some(arr) => arr,
            None => {
                return None;
            },
        },
        None => {
            return None;
        },
    };
    let mut children: Vec<Message> = Vec::new();
    let nc = child_values.len();
    let mut k: usize = 0;
    while k < nc
        invariant
            nc == child_values@.len(),
            k <= nc,
            fuel >= 1,
            forall|j: int| 0 <= j < children@.len() ==> (#[trigger] children@[j]).wf(),
        decreases nc - k,
    {
        match message_from_value(&child_values[k], fuel - 1) {
            Some(m) => children.push(m),
            None => {
                return None;
            },
        }
        k += 1;
    }
    Some(Message { code, message: text, level, spans, children })
}

/// One event, by its `reason` tag: a compiler message carries a message, a
/// finished build carries its success flag, any other tag is an event this
/// library ignores, and a value without a string tag is a schema violation.
pub(crate) fn reason_from_value(v: &serde_json::Value, fuel: usize) -> (r: Option<Reason>)
    ensures
        r is Some ==> r->0.wf(),
{
    let tag = match json_get(v, "reason") {
        Some(x) => match json_as_str(x) {
            Some(s) => s,
            None => {
                return None;
            },
        },
        None => {
            return None;
        },
    };
    if crate::strops::str_eq(tag, "compiler-message") {
        match json_get(v, "message") {
            Some(mv) => match message_from_value(mv, fuel) {
                Some(message) => Some(Reason::CompilerMessage { message }),
                None => None,
            },
            None => None,
        }
    } else if crate::strops::str_eq(tag, "build-finished") {
        match json_get(v, "success") {
            Some(sv) => match json_as_bool(sv) {
                Some(success) => Some(Reason::BuildFinished { success }),
                None => None,
            },
            None => None,
        }
    } else {
        Some(Reason::Ignored)
    }
}

/// Decodes one line of the stream: parse it as one JSON document and read
/// an event out of it; anything else is noise and gives nothing back.
pub fn decode_line(line: &str) -> (r: Option<Reason>)
    ensures
        r is Some ==> r->0.wf(),
{
    match parse_json(line) {
        Some(v) => reason_from_value(&v, line.len()),
        None => None,
    }
}

} // verus!
