use minimal_logger::clock::{timestamp_text, UtcTime};
use minimal_logger::config::DEFAULT_LOG_FORMAT;
use minimal_logger::format::{
    apply_format_spec, parse_format_spec, parse_placeholder, render_field, render_field_at, Align,
    FormatPiece, FormatSpec, LogField, LogFormat, MAX_FORMAT_FIELD_WIDTH,
};
use minimal_logger::{Level, Record};

fn record(args: &str, level: Level, target: &str, file: &str, line: u32) -> Record {
    Record {
        level,
        target: target.to_string(),
        args: args.to_string(),
        module: Some("minimal_logger::tests".to_string()),
        file: Some(file.to_string()),
        line: Some(line),
        thread_name: Some("main".to_string()),
    }
}

fn noon() -> UtcTime {
    UtcTime { year: 2026, month: 4, day: 18, hour: 12, minute: 34, second: 56, nanosecond: 789_012_999 }
}

#[test]
fn default_log_format_renders() {
    let format = LogFormat::parse(DEFAULT_LOG_FORMAT);
    let mut record = record("hello", Level::Info, "test", "lib.rs", 123);
    record.thread_name = Some("tests::default_log_format_renders".to_string());

    assert!(format.render(&record).contains("T[tests::default_log_format_renders]"));
    assert!(format.render(&record).contains("[INFO ]"));
    assert!(format.render(&record).ends_with("hello\n"));
}

#[test]
fn default_log_format_renders_exactly() {
    let format = LogFormat::parse(DEFAULT_LOG_FORMAT);
    let record = record("hello", Level::Info, "test", "lib.rs", 123);
    assert_eq!(
        format.render_at(&record, &noon()),
        "2026-04-18T12:34:56.789012Z [INFO ] T[main] [lib.rs:123] hello\n"
    );
}

#[test]
fn custom_log_format_renders_placeholders() {
    let format = LogFormat::parse("{level}|{target}|{args}|{module_path}|{file}|{line}");
    let record = record("ok", Level::Debug, "myapp", "lib.rs", 123);
    assert_eq!(format.render(&record), "DEBUG|myapp|ok|minimal_logger::tests|lib.rs|123\n");
}

#[test]
fn escaped_braces_render_literal_braces() {
    let format = LogFormat::parse("{{level}} {level}");
    let record = record("y", Level::Warn, "x", "lib.rs", 123);
    assert_eq!(format.render(&record), "{level} WARN\n");
}

#[test]
fn timestamp_placeholder_renders() {
    let format = LogFormat::parse("{timestamp} {level} {args}");
    let record = record("test", Level::Info, "test", "lib.rs", 123);

    let output = format.render(&record);
    let ts = output.split_whitespace().next().unwrap_or("");
    assert!(
        ts.len() == 27 && ts.ends_with('Z') && ts.contains('T'),
        "timestamp did not match expected ISO-8601 format: got {ts:?}"
    );
    assert!(output.contains("INFO"));
    assert!(output.ends_with('\n'));
}

#[test]
fn thread_name_placeholder_renders() {
    let format = LogFormat::parse("{thread_name} {level} {args}");
    let mut record = record("test", Level::Info, "test", "lib.rs", 123);
    record.thread_name = Some("worker-7".to_string());
    let output = format.render(&record);
    assert!(output.starts_with("worker-7"));
    assert!(output.contains("INFO"));
    assert!(output.ends_with('\n'));

    record.thread_name = None;
    assert!(format.render(&record).starts_with("unnamed"));
}

#[test]
fn right_alignment_pads_on_left() {
    let format = LogFormat::parse("{line:>4}");
    let record = record("", Level::Info, "t", "f", 7);
    assert!(format.render(&record).starts_with("   7"));
}

#[test]
fn format_spec_width_zero_means_no_padding() {
    let format = LogFormat::parse("{level}");
    let record = record("", Level::Warn, "t", "f", 1);
    assert_eq!(format.render(&record).trim_end(), "WARN");
}

#[test]
fn every_level_has_its_name() {
    let format = LogFormat::parse("{level}");
    for (level, name) in [
        (Level::Error, "ERROR\n"),
        (Level::Warn, "WARN\n"),
        (Level::Info, "INFO\n"),
        (Level::Debug, "DEBUG\n"),
        (Level::Trace, "TRACE\n"),
    ] {
        assert_eq!(format.render(&record("", level, "t", "f", 1)), name);
    }
}

#[test]
fn message_is_another_name_for_args() {
    let format = LogFormat::parse("{message}={args}");
    assert_eq!(format.render(&record("m", Level::Info, "t", "f", 1)), "m=m\n");
}

#[test]
fn missing_parts_render_as_nothing() {
    let format = LogFormat::parse("[{module_path}|{file}|{line}]");
    let bare = Record {
        level: Level::Info,
        target: String::new(),
        args: String::new(),
        module: None,
        file: None,
        line: None,
        thread_name: None,
    };
    assert_eq!(format.render(&bare), "[||]\n");
}

#[test]
fn unknown_fields_stay_as_text() {
    let r = record("a", Level::Info, "t", "f", 1);
    assert_eq!(LogFormat::parse("{foo} {}").render(&r), "{foo} {}\n");
    assert_eq!(LogFormat::parse("{foo:<5}").render(&r), "{foo:<5}\n");
    assert_eq!(LogFormat::parse("{Level}").render(&r), "{Level}\n");
}

#[test]
fn open_placeholder_ends_with_the_template() {
    let r = record("a", Level::Info, "t", "f", 1);
    assert_eq!(LogFormat::parse("x{level").render(&r), "xINFO\n");
    assert_eq!(LogFormat::parse("{foo").render(&r), "{foo}\n");
    assert_eq!(LogFormat::parse("a } b").render(&r), "a } b\n");
    assert_eq!(LogFormat::parse("{{{level}}}").render(&r), "{INFO}\n");
}

#[test]
fn line_feed_is_not_doubled() {
    let r = record("two\nlines\n", Level::Info, "t", "f", 1);
    assert_eq!(LogFormat::parse("{args}").render(&r), "two\nlines\n");
    assert_eq!(LogFormat::parse("").render(&r), "\n");
}

#[test]
fn widths_count_characters() {
    let wide = FormatSpec { align: Align::Left, width: Some(5) };
    assert_eq!(apply_format_spec("äöü", wide), "äöü  ");
    let right = FormatSpec { align: Align::Right, width: Some(5) };
    assert_eq!(apply_format_spec("äöü", right), "  äöü");
    assert_eq!(apply_format_spec("abcdef", right), "abcdef");
    assert_eq!(apply_format_spec("ab", FormatSpec { align: Align::Right, width: None }), "ab");
}

#[test]
fn format_specs_are_read() {
    let none = FormatSpec { align: Align::Left, width: None };
    assert_eq!(parse_format_spec("<5"), FormatSpec { align: Align::Left, width: Some(5) });
    assert_eq!(parse_format_spec(">12"), FormatSpec { align: Align::Right, width: Some(12) });
    assert_eq!(parse_format_spec("<+3"), FormatSpec { align: Align::Left, width: Some(3) });
    assert_eq!(parse_format_spec(""), none);
    assert_eq!(parse_format_spec("5"), none);
    assert_eq!(parse_format_spec("^5"), none);
    assert_eq!(parse_format_spec("<"), none);
    assert_eq!(parse_format_spec("<-1"), none);
    assert_eq!(parse_format_spec("<99999999999999999999999"), none);
    assert_eq!(
        parse_format_spec("<18446744073709551615"),
        FormatSpec { align: Align::Left, width: Some(MAX_FORMAT_FIELD_WIDTH) }
    );
}

#[test]
fn placeholders_are_read() {
    match parse_placeholder("line:>4") {
        FormatPiece::Placeholder { field, spec } => {
            assert_eq!(field, LogField::Line);
            assert_eq!(spec, FormatSpec { align: Align::Right, width: Some(4) });
        }
        FormatPiece::Literal(text) => panic!("literal {text}"),
    }
    match parse_placeholder("nothing") {
        FormatPiece::Literal(text) => assert_eq!(text, "{nothing}"),
        FormatPiece::Placeholder { .. } => panic!("placeholder"),
    }
}

#[test]
fn timestamps_have_a_fixed_shape() {
    assert_eq!(timestamp_text(&noon()), "2026-04-18T12:34:56.789012Z");
    assert_eq!(timestamp_text(&UtcTime::unix_epoch()), "1970-01-01T00:00:00.000000Z");
    let early = UtcTime { year: 7, month: 2, day: 28, hour: 3, minute: 4, second: 5, nanosecond: 999 };
    assert_eq!(timestamp_text(&early), "0007-02-28T03:04:05.000000Z");
    let leap = UtcTime {
        year: 2000,
        month: 2,
        day: 29,
        hour: 23,
        minute: 59,
        second: 59,
        nanosecond: 999_999_999,
    };
    assert_eq!(timestamp_text(&leap), "2000-02-29T23:59:59.999999Z");
    let negative = UtcTime { year: -9999, ..UtcTime::unix_epoch() };
    assert_eq!(timestamp_text(&negative), "-9999-01-01T00:00:00.000000Z");
    let last = UtcTime { year: 9999, month: 12, day: 31, ..UtcTime::unix_epoch() };
    assert_eq!(timestamp_text(&last), "9999-12-31T00:00:00.000000Z");
}

#[test]
fn fields_are_rendered() {
    let r = record("a", Level::Info, "t", "f.rs", 4_294_967_295);
    assert_eq!(render_field(LogField::Line, &r), "4294967295");
    assert_eq!(render_field_at(LogField::File, &r, &noon()), "f.rs");
    assert_eq!(render_field(LogField::Timestamp, &r).len(), 27);
    let zero = record("a", Level::Info, "t", "f.rs", 0);
    assert_eq!(render_field(LogField::Line, &zero), "0");
}
