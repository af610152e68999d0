use simple_log_formatter::record::{Level, LogRecord};
use simple_log_formatter::render::{
    json_formatter, render_json_string, render_simple_string, simple_formatter, RenderError,
};
use simple_log_formatter::json_escape::escape_string;
use simple_log_formatter::sink::{FailingSink, StringSink};

fn record(level: Level, module: Option<&str>, message: &str) -> LogRecord {
    LogRecord {
        level,
        module: module.map(|m| m.to_string()),
        message: message.to_string(),
    }
}

#[test]
fn simple_log_format() {
    let rec = record(
        Level::Debug,
        Some("simple_log_formatter::tests"),
        "some debug log",
    );
    let mut sink = StringSink::new();
    let res = simple_formatter(&mut sink, &rec);
    assert!(res.is_ok());
    assert_eq!(
        "DEBUG [simple_log_formatter::tests] some debug log\n",
        sink.text
    );
}

#[test]
fn json_log_format() {
    let rec = record(
        Level::Debug,
        Some("simple_log_formatter::tests"),
        "some debug log",
    );
    let mut sink = StringSink::new();
    let res = json_formatter(&mut sink, &rec);
    assert!(res.is_ok());
    assert_eq!(
        "{\"level\":\"DEBUG\",\"msg\":\"[simple_log_formatter::tests] some debug log\"}\n",
        sink.text
    );
}

#[test]
fn simple_format_exact_line() {
    let rec = record(Level::Debug, Some("pkg::mod"), "hello");
    assert_eq!("DEBUG [pkg::mod] hello\n", render_simple_string(&rec));
}

#[test]
fn json_format_exact_line() {
    let rec = record(Level::Debug, Some("pkg::mod"), "hello");
    assert_eq!(
        "{\"level\":\"DEBUG\",\"msg\":\"[pkg::mod] hello\"}\n",
        render_json_string(&rec)
    );
}

#[test]
fn absent_module_renders_empty_bracket() {
    let rec = record(Level::Info, None, "some message");
    assert_eq!("INFO [] some message\n", render_simple_string(&rec));
    assert_eq!(
        "{\"level\":\"INFO\",\"msg\":\"[] some message\"}\n",
        render_json_string(&rec)
    );
}

#[test]
fn level_names() {
    assert_eq!("ERROR", Level::Error.as_str());
    assert_eq!("WARN", Level::Warn.as_str());
    assert_eq!("INFO", Level::Info.as_str());
    assert_eq!("DEBUG", Level::Debug.as_str());
    assert_eq!("TRACE", Level::Trace.as_str());
}

#[test]
fn rendering_twice_is_byte_identical() {
    let rec = record(Level::Warn, Some("a::b"), "again and again");
    let first = render_simple_string(&rec);
    let second = render_simple_string(&rec);
    assert_eq!(first.as_bytes(), second.as_bytes());
    let first_json = render_json_string(&rec);
    let second_json = render_json_string(&rec);
    assert_eq!(first_json.as_bytes(), second_json.as_bytes());
}

#[test]
fn json_round_trips_through_standard_parser() {
    let rec = record(Level::Debug, Some("pkg::mod"), "hello \"quoted\"\n\\done");
    let line = render_json_string(&rec);
    assert!(line.ends_with('\n'));
    let value: serde_json::Value = serde_json::from_str(&line).unwrap();
    let object = value.as_object().unwrap();
    assert_eq!(2, object.len());
    let keys: Vec<&String> = object.keys().collect();
    assert_eq!("level", keys[0]);
    assert_eq!("msg", keys[1]);
    assert_eq!("DEBUG", object.get("level").unwrap().as_str().unwrap());
    assert_eq!(
        "[pkg::mod] hello \"quoted\"\n\\done",
        object.get("msg").unwrap().as_str().unwrap()
    );
}

#[test]
fn json_escaping_matches_standard_serializer() {
    let message = "quote \" backslash \\ tab \t newline \n cr \r bs \u{8} ff \u{c} bell \u{7} unit \u{1f} high \u{7f} text";
    let rec = record(Level::Error, Some("esc::mod"), message);
    let line = render_json_string(&rec);
    let msg_value = format!("[esc::mod] {}", message);
    let expected = format!(
        "{{\"level\":\"ERROR\",\"msg\":{}}}\n",
        serde_json::to_string(&msg_value).unwrap()
    );
    assert_eq!(expected, line);
}

#[test]
fn json_escapes_control_characters_as_hex() {
    let rec = record(Level::Info, None, "a\u{1}b\u{1f}c");
    assert_eq!(
        "{\"level\":\"INFO\",\"msg\":\"[] a\\u0001b\\u001fc\"}\n",
        render_json_string(&rec)
    );
}

#[test]
fn simple_format_passes_message_verbatim() {
    let message = "quote \" backslash \\ tab \t bell \u{7} end";
    let rec = record(Level::Trace, Some("raw::mod"), message);
    let expected = format!("TRACE [raw::mod] {}\n", message);
    assert_eq!(expected, render_simple_string(&rec));
}

#[test]
fn failing_sink_yields_write_failure() {
    let rec = record(Level::Debug, Some("pkg::mod"), "hello");
    let mut sink = FailingSink::new(5);
    let res = simple_formatter(&mut sink, &rec);
    assert_eq!(Err(RenderError::WriteFailure), res);
    let partial: String = sink.text.iter().collect();
    assert_eq!("DEBUG", partial);

    let mut json_sink = FailingSink::new(3);
    let json_res = json_formatter(&mut json_sink, &rec);
    assert_eq!(Err(RenderError::WriteFailure), json_res);
    let json_partial: String = json_sink.text.iter().collect();
    assert_eq!("{\"l", json_partial);
}

#[test]
fn roomy_failing_sink_takes_the_whole_line() {
    let rec = record(Level::Debug, Some("pkg::mod"), "hello");
    let mut sink = FailingSink::new(100);
    let res = simple_formatter(&mut sink, &rec);
    assert!(res.is_ok());
    let written: String = sink.text.iter().collect();
    assert_eq!("DEBUG [pkg::mod] hello\n", written);
}

#[test]
fn string_sink_accumulates_lines() {
    let mut sink = StringSink::new();
    let first = record(Level::Info, Some("a"), "one");
    let second = record(Level::Warn, Some("b"), "two");
    assert!(simple_formatter(&mut sink, &first).is_ok());
    assert!(simple_formatter(&mut sink, &second).is_ok());
    assert_eq!("INFO [a] one\nWARN [b] two\n", sink.text);
}

#[test]
fn escape_string_escapes_only_what_json_requires() {
    assert_eq!("plain text", escape_string("plain text"));
    assert_eq!(
        "a\\\"b\\\\c\\nd\\te\\rf\\u0000g",
        escape_string("a\"b\\c\nd\te\rf\u{0}g")
    );
    assert_eq!("\\b\\f", escape_string("\u{8}\u{c}"));
}

#[test]
fn non_ascii_passes_through_unescaped() {
    let rec = record(Level::Info, Some("uni::mod"), "h\u{e9}llo \u{2603}");
    assert_eq!(
        "INFO [uni::mod] h\u{e9}llo \u{2603}\n",
        render_simple_string(&rec)
    );
    assert_eq!(
        "{\"level\":\"INFO\",\"msg\":\"[uni::mod] h\u{e9}llo \u{2603}\"}\n",
        render_json_string(&rec)
    );
    let value: serde_json::Value = serde_json::from_str(&render_json_string(&rec)).unwrap();
    assert_eq!(
        "[uni::mod] h\u{e9}llo \u{2603}",
        value.as_object().unwrap().get("msg").unwrap().as_str().unwrap()
    );
}
