//! The two renderers: each turns one log record into one terminated line —
//! human-readable simple format, or single-line JSON with the fixed field
//! order `level` then `msg` — and writes it to a sink.

use crate::json_escape::{escape_text, lemma_parse_escaped_body, lemma_parse_plain_body,
    parse_string_body, push_escaped_text};
use crate::record::{bracketed_message, level_name, module_text, render_bracketed_message,
    LogRecord};
use crate::sink::Sink;
use vstd::prelude::*;

verus! {

/// Why a render call failed: the sink refused a write, or the record could
/// not be serialized. The renderers here build the JSON text themselves and
/// prove it, so they only ever report `WriteFailure`; `SerializationFailure`
/// stands in the contract for callers that must be ready to surface it.
#[derive(Clone, Copy, PartialEq, Eq, Structural, Debug)]
pub enum RenderError {
    WriteFailure,
    SerializationFailure,
}

/// The complete simple-format line: `<LEVEL> [<module>] <message>` and one
/// trailing newline.
pub open spec fn simple_line(r: LogRecord) -> Seq<char> {
    level_name(r.level) + " "@ + bracketed_message(r) + "\n"@
}

/// The complete JSON-format line: the object
/// `{"level":"<LEVEL>","msg":"[<module>] <message>"}` with `level` before
/// `msg` and the `msg` value JSON-escaped, and one trailing newline.
pub open spec fn json_line(r: LogRecord) -> Seq<char> {
    "{\"level\":\""@ + level_name(r.level) + "\",\"msg\":\""@ + escape_text(bracketed_message(r))
        + "\"}\n"@
}

/// The simple-format line for a record, as a string.
pub fn render_simple_string(record: &LogRecord) -> (r: String)
    ensures
        r@ == simple_line(*record),
{
    let mut line = String::from_str(record.level.as_str());
    line.append(" ");
    let body = render_bracketed_message(record);
    line.append(body.as_str());
    line.append("\n");
    proof {
        assert(line@ =~= simple_line(*record));
    }
    line
}

/// The JSON-format line for a record, as a string.
pub fn render_json_string(record: &LogRecord) -> (r: String)
    ensures
        r@ == json_line(*record),
{
    let mut line = String::from_str("{\"level\":\"");
    line.append(record.level.as_str());
    line.append("\",\"msg\":\"");
    let body = render_bracketed_message(record);
    push_escaped_text(&mut line, body.as_str());
    line.append("\"}\n");
    proof {
        assert(line@ =~= json_line(*record));
    }
    line
}

/// Writes the simple-format line for `record` to `sink`. On a sink that
/// accepts every write the call succeeds; on success the sink has gained
/// exactly that line; on failure it reports the write failure and the sink
/// holds its old content extended by some prefix of the line.
pub fn simple_formatter<S: Sink>(sink: &mut S, record: &LogRecord) -> (res: Result<
    (),
    RenderError,
>)
    ensures
        old(sink).accepts_all() ==> res is Ok,
        res is Ok ==> final (sink).content() == old(sink).content() + simple_line(*record),
        res is Err ==> res->Err_0 is WriteFailure && exists|n: int|
            0 <= n <= simple_line(*record).len() && final (sink).content() == old(
                sink,
            ).content() + simple_line(*record).subrange(0, n),
{
    let line = render_simple_string(record);
    match sink.write_str(line.as_str()) {
        Ok(()) => Ok(()),
        Err(_) => Err(RenderError::WriteFailure),
    }
}

/// Writes the JSON-format line for `record` to `sink`. On a sink that
/// accepts every write the call succeeds; on success the sink has gained
/// exactly that line; on failure it reports the write failure and the sink
/// holds its old content extended by some prefix of the line. The JSON text
/// is built and proved here, so serialization never fails.
pub fn json_formatter<S: Sink>(sink: &mut S, record: &LogRecord) -> (res: Result<(), RenderError>)
    ensures
        old(sink).accepts_all() ==> res is Ok,
        res is Ok ==> final (sink).content() == old(sink).content() + json_line(*record),
        res is Err ==> res->Err_0 is WriteFailure && exists|n: int|
            0 <= n <= json_line(*record).len() && final (sink).content() == old(sink).content()
                + json_line(*record).subrange(0, n),
{
    let line = render_json_string(record);
    match sink.write_str(line.as_str()) {
        Ok(()) => Ok(()),
        Err(_) => Err(RenderError::WriteFailure),
    }
}

/// How a standard JSON parser reads the line a JSON-format render writes:
/// the opening brace and the `level` key, that field's string body to its
/// unescaped closing quote, the `msg` key, that field's string body to its
/// unescaped closing quote, the closing brace, the newline. Yields the two
/// decoded field values, or nothing where the text is not of this shape.
pub open spec fn parse_json_line(s: Seq<char>) -> Option<(Seq<char>, Seq<char>)> {
    if s.len() >= 10 && s.take(10) == "{\"level\":\""@ {
        match parse_string_body(s.skip(10)) {
            Some((level_value, rest)) => if rest.len() >= 8 && rest.take(8) == ",\"msg\":\""@ {
                match parse_string_body(rest.skip(8)) {
                    Some((msg_value, end)) => if end == "}\n"@ {
                        Some((level_value, msg_value))
                    } else {
                        None
                    },
                    None => None,
                }
            } else {
                None
            },
            None => None,
        }
    } else {
        None
    }
}

/// Law: the JSON line parses to an object of exactly the two fields, in
/// order — `level` decoding to the upper-case level name, and `msg` decoding
/// to the `[<module>] <message>` body exactly: the same content the simple
/// format carries.
pub proof fn lemma_json_line_two_fields(r: LogRecord)
    ensures
        parse_json_line(json_line(r)) == Some((level_name(r.level), bracketed_message(r))),
{
    let s = json_line(r);
    let lv = level_name(r.level);
    let body = escape_text(bracketed_message(r));
    reveal_strlit("{\"level\":\"");
    reveal_strlit("\",\"msg\":\"");
    reveal_strlit(",\"msg\":\"");
    reveal_strlit("\"}\n");
    reveal_strlit("}\n");
    reveal_strlit("ERROR");
    reveal_strlit("WARN");
    reveal_strlit("INFO");
    reveal_strlit("DEBUG");
    reveal_strlit("TRACE");
    assert(forall|i: int| 0 <= i < lv.len() ==> lv[i] != '"' && lv[i] != '\\');
    let tail1 = ",\"msg\":\""@ + body + seq!['"'] + "}\n"@;
    assert(s.len() >= 10 && s.take(10) =~= "{\"level\":\""@);
    assert(s.skip(10) =~= lv + seq!['"'] + tail1);
    lemma_parse_plain_body(lv, tail1);
    assert(tail1.len() >= 8 && tail1.take(8) =~= ",\"msg\":\""@);
    assert(tail1.skip(8) =~= body + seq!['"'] + "}\n"@);
    lemma_parse_escaped_body(bracketed_message(r), "}\n"@);
}

/// Law: a record without a module path renders an empty bracket — its body
/// is `[] <message>`, in both renderers.
pub proof fn lemma_absent_module_empty_bracket(r: LogRecord)
    requires
        r.module is None,
    ensures
        bracketed_message(r) == "[] "@ + r.message@,
{
    reveal_strlit("[");
    reveal_strlit("] ");
    reveal_strlit("[] ");
    assert(bracketed_message(r) =~= "[] "@ + r.message@);
}

/// Law: rendering is a pure function of the record — the text two successful
/// simple-format calls appended to their sinks is identical, whatever the
/// sinks held before.
pub proof fn lemma_simple_render_deterministic(
    r: LogRecord,
    before1: Seq<char>,
    after1: Seq<char>,
    before2: Seq<char>,
    after2: Seq<char>,
)
    requires
        after1 == before1 + simple_line(r),
        after2 == before2 + simple_line(r),
    ensures
        after1.subrange(before1.len() as int, after1.len() as int) == after2.subrange(
            before2.len() as int,
            after2.len() as int,
        ),
{
    assert(after1.subrange(before1.len() as int, after1.len() as int) =~= simple_line(r));
    assert(after2.subrange(before2.len() as int, after2.len() as int) =~= simple_line(r));
}

/// Law: the text two successful JSON-format calls appended to their sinks is
/// identical, whatever the sinks held before.
pub proof fn lemma_json_render_deterministic(
    r: LogRecord,
    before1: Seq<char>,
    after1: Seq<char>,
    before2: Seq<char>,
    after2: Seq<char>,
)
    requires
        after1 == before1 + json_line(r),
        after2 == before2 + json_line(r),
    ensures
        after1.subrange(before1.len() as int, after1.len() as int) == after2.subrange(
            before2.len() as int,
            after2.len() as int,
        ),
{
    assert(after1.subrange(before1.len() as int, after1.len() as int) =~= json_line(r));
    assert(after2.subrange(before2.len() as int, after2.len() as int) =~= json_line(r));
}

/// Law: the simple renderer passes the message through verbatim — the line
/// is the level name, ` [`, the module path, `] `, then the message
/// unchanged, ending in exactly one newline.
pub proof fn lemma_simple_message_verbatim(r: LogRecord)
    ensures
        simple_line(r).len() == level_name(r.level).len() + module_text(r).len()
            + r.message@.len() + 5,
        simple_line(r).subrange(
            (level_name(r.level).len() + module_text(r).len() + 4) as int,
            simple_line(r).len() - 1,
        ) == r.message@,
        simple_line(r).last() == '\n',
{
    reveal_strlit(" ");
    reveal_strlit("[");
    reveal_strlit("] ");
    reveal_strlit("\n");
    assert(simple_line(r).subrange(
        (level_name(r.level).len() + module_text(r).len() + 4) as int,
        simple_line(r).len() - 1,
    ) =~= r.message@);
}

} // verus!


