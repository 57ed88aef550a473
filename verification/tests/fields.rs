use engine::log::capture::render_chain;
use engine::log::{
    Event, Field, FieldMap, FloatText, Level, LogValue, PrintLnLayer, PrintLnVisitor,
};

fn event_with(fields: FieldMap) -> Event {
    Event {
        level: Level::Info,
        target: String::from("t"),
        file: None,
        line: None,
        fields,
    }
}

fn joined(fields: FieldMap) -> String {
    let mut out = String::new();
    fields.append_joined(&mut out);
    out
}

#[test]
fn a_new_map_is_empty() {
    let map = FieldMap::new();
    assert_eq!(map.len(), 0);
    assert_eq!(map.get("anything"), None);
    assert_eq!(joined(map), "");
}

#[test]
fn insert_adds_a_new_name() {
    let mut map = FieldMap::new();
    map.insert("count", LogValue::U64(3));
    assert_eq!(map.len(), 1);
    assert_eq!(map.get("count"), Some(&LogValue::U64(3)));
    assert_eq!(map.get("other"), None);
}

#[test]
fn insert_under_the_same_name_overwrites() {
    let mut map = FieldMap::new();
    map.insert("count", LogValue::U64(3));
    map.insert("count", LogValue::U64(4));
    assert_eq!(map.len(), 1);
    assert_eq!(map.get("count"), Some(&LogValue::U64(4)));
    assert_eq!(joined(map), "count=4");
}

#[test]
fn overwriting_may_change_the_kind() {
    let mut map = FieldMap::new();
    map.insert("v", LogValue::U64(3));
    map.insert("v", LogValue::Text(String::from("three")));
    assert_eq!(map.len(), 1);
    assert_eq!(map.get("v"), Some(&LogValue::Text(String::from("three"))));
}

#[test]
fn overwriting_keeps_the_place_of_the_name() {
    let mut map = FieldMap::new();
    map.insert("a", LogValue::U64(1));
    map.insert("b", LogValue::U64(2));
    map.insert("c", LogValue::U64(3));
    map.insert("a", LogValue::U64(9));
    assert_eq!(map.len(), 3);
    assert_eq!(joined(map), "a=9 b=2 c=3");
}

#[test]
fn insert_leaves_other_names_alone() {
    let mut map = FieldMap::new();
    map.insert("a", LogValue::Bool(true));
    map.insert("b", LogValue::I64(-2));
    map.insert("b", LogValue::I64(-3));
    assert_eq!(map.get("a"), Some(&LogValue::Bool(true)));
    assert_eq!(map.get("b"), Some(&LogValue::I64(-3)));
}

#[test]
fn names_that_differ_in_case_or_length_are_different_names() {
    let mut map = FieldMap::new();
    map.insert("a", LogValue::U64(1));
    map.insert("A", LogValue::U64(2));
    map.insert("aa", LogValue::U64(3));
    map.insert("", LogValue::U64(4));
    assert_eq!(map.len(), 4);
    assert_eq!(map.get("a"), Some(&LogValue::U64(1)));
    assert_eq!(map.get("A"), Some(&LogValue::U64(2)));
    assert_eq!(map.get("aa"), Some(&LogValue::U64(3)));
    assert_eq!(map.get(""), Some(&LogValue::U64(4)));
}

#[test]
fn fields_are_joined_in_the_order_of_first_writing() {
    let mut map = FieldMap::new();
    map.insert("z", LogValue::U64(1));
    map.insert("a", LogValue::Bool(false));
    map.insert("m", LogValue::Text(String::from("x")));
    assert_eq!(joined(map), "z=1 a=false m=\"x\"");
}

#[test]
fn one_field_is_joined_without_a_space() {
    let mut map = FieldMap::new();
    map.insert("only", LogValue::I64(-1));
    assert_eq!(joined(map), "only=-1");
}

#[test]
fn append_joined_keeps_what_is_there() {
    let mut map = FieldMap::new();
    map.insert("k", LogValue::U64(1));
    let mut out = String::from("> ");
    map.append_joined(&mut out);
    assert_eq!(out, "> k=1");
}

#[test]
fn visitor_starts_empty() {
    let visitor = PrintLnVisitor::new();
    assert_eq!(visitor.len(), 0);
    assert_eq!(visitor.into_fields().len(), 0);
}

#[test]
fn visitor_keeps_each_kind_as_it_is() {
    let mut visitor = PrintLnVisitor::new();
    let value: f64 = 2.25;
    visitor.record_f64("f", format!("{}", value));
    visitor.record_i64("i", -7);
    visitor.record_u64("u", 7);
    visitor.record_i128("ii", i128::MIN);
    visitor.record_u128("uu", u128::MAX);
    visitor.record_bool("b", true);
    visitor.record_str("s", "text");
    assert_eq!(visitor.len(), 7);
    let fields = visitor.into_fields();
    assert_eq!(
        fields.get("f").map(|value| value.render()),
        Some(String::from("2.25"))
    );
    match fields.get("f") {
        Some(LogValue::F64(text)) => assert_eq!(text.as_str(), "2.25"),
        other => panic!("a float is kept as a float, not as {:?}", other),
    }
    assert_eq!(
        fields.get("f"),
        FloatText::parse(String::from("2.25"))
            .map(LogValue::F64)
            .as_ref()
    );
    assert_eq!(fields.get("i"), Some(&LogValue::I64(-7)));
    assert_eq!(fields.get("u"), Some(&LogValue::U64(7)));
    assert_eq!(fields.get("ii"), Some(&LogValue::I128(i128::MIN)));
    assert_eq!(fields.get("uu"), Some(&LogValue::U128(u128::MAX)));
    assert_eq!(fields.get("b"), Some(&LogValue::Bool(true)));
    assert_eq!(fields.get("s"), Some(&LogValue::Text(String::from("text"))));
}

#[test]
fn visitor_does_not_turn_an_unsigned_value_into_a_signed_one() {
    let mut visitor = PrintLnVisitor::new();
    visitor.record_u64("n", u64::MAX);
    let fields = visitor.into_fields();
    assert_eq!(fields.get("n"), Some(&LogValue::U64(u64::MAX)));
    assert_ne!(fields.get("n"), Some(&LogValue::I64(-1)));
    assert_eq!(joined(fields), "n=18446744073709551615");
}

#[test]
fn visitor_last_writer_wins() {
    let mut visitor = PrintLnVisitor::new();
    visitor.record_u64("n", 1);
    visitor.record_bool("ok", true);
    visitor.record_i64("n", -1);
    assert_eq!(visitor.len(), 2);
    let fields = visitor.into_fields();
    assert_eq!(fields.get("n"), Some(&LogValue::I64(-1)));
    assert_eq!(joined(fields), "n=-1 ok=true");
}

#[test]
fn visitor_records_a_debug_form_as_text() {
    let mut visitor = PrintLnVisitor::new();
    let value: Option<u8> = Some(3);
    visitor.record_debug("v", &format!("{:?}", value));
    let pair = (1u8, "x");
    visitor.record_debug("p", &format!("{:?}", pair));
    let fields = visitor.into_fields();
    assert_eq!(fields.get("v"), Some(&LogValue::Text(String::from("Some(3)"))));
    assert_eq!(
        fields.get("p"),
        Some(&LogValue::Text(String::from("(1, \"x\")")))
    );
    assert_eq!(joined(fields), "v=\"Some(3)\" p=\"(1, \"x\")\"");
}

#[test]
fn visitor_records_a_debug_form_under_the_name_given() {
    let mut visitor = PrintLnVisitor::new();
    visitor.record_u64("v", 1);
    visitor.record_debug("v", "[1, 2]");
    assert_eq!(visitor.len(), 1);
    let fields = visitor.into_fields();
    assert_eq!(fields.get("v"), Some(&LogValue::Text(String::from("[1, 2]"))));
    assert_eq!(joined(fields), "v=\"[1, 2]\"");
}

#[test]
fn visitor_records_an_error_without_sources_as_its_message() {
    let error = "x".parse::<u32>().unwrap_err();
    let messages = vec![format!("{}", error)];
    let mut visitor = PrintLnVisitor::new();
    visitor.record_error("error", &messages);
    let fields = visitor.into_fields();
    assert_eq!(
        fields.get("error"),
        Some(&LogValue::Text(String::from("invalid digit found in string")))
    );
    assert_eq!(joined(fields), "error=\"invalid digit found in string\"");
}

#[test]
fn visitor_records_the_whole_chain_of_an_error() {
    let messages = vec![
        String::from("initialization error"),
        String::from("cannot read config.toml"),
        String::from("No such file or directory (os error 2)"),
    ];
    let mut visitor = PrintLnVisitor::new();
    visitor.record_error("error", &messages);
    let fields = visitor.into_fields();
    let expected =
        "initialization error: cannot read config.toml: No such file or directory (os error 2)";
    assert_eq!(
        fields.get("error"),
        Some(&LogValue::Text(String::from(expected)))
    );
    let line = joined(fields);
    assert!(line.starts_with("error=\"initialization error"));
    for message in &messages {
        assert_eq!(line.matches(message.as_str()).count(), 1);
    }
}

#[test]
fn visitor_records_an_error_without_messages_as_empty_text() {
    let messages: Vec<String> = Vec::new();
    let mut visitor = PrintLnVisitor::new();
    visitor.record_error("error", &messages);
    let fields = visitor.into_fields();
    assert_eq!(fields.get("error"), Some(&LogValue::Text(String::new())));
}

#[test]
fn chain_is_joined_by_a_colon_and_a_space() {
    assert_eq!(render_chain(&Vec::new()), "");
    assert_eq!(render_chain(&vec![String::from("a")]), "a");
    assert_eq!(
        render_chain(&vec![String::from("a"), String::from("b")]),
        "a: b"
    );
    assert_eq!(
        render_chain(&vec![String::from("a"), String::new(), String::from("c")]),
        "a: : c"
    );
}

#[test]
fn visitor_records_text_as_it_is() {
    let mut visitor = PrintLnVisitor::new();
    visitor.record_str("name", "hi");
    let fields = visitor.into_fields();
    assert_eq!(fields.get("name"), Some(&LogValue::Text(String::from("hi"))));
    assert_eq!(joined(fields), "name=\"hi\"");
}

#[test]
fn line_of_a_warning_with_two_fields_and_a_location() {
    let mut visitor = PrintLnVisitor::new();
    visitor.record_u64("count", 3);
    visitor.record_bool("ok", false);
    let event = Event {
        level: Level::Warn,
        target: String::from("net"),
        file: Some(String::from("a.rs")),
        line: Some(10),
        fields: visitor.into_fields(),
    };
    let line = PrintLnLayer.on_event(&event);
    assert!(line.contains("[WARN][net]"));
    assert!(line.starts_with("[WARN][net] "));
    assert_eq!(line.matches("count=3").count(), 1);
    assert_eq!(line.matches("ok=false").count(), 1);
    assert!(line.ends_with("- a.rs:10"));
    assert_eq!(line, "[WARN][net] count=3 ok=false - a.rs:10");
}

#[test]
fn line_holds_each_token_once_whatever_the_order_of_writing() {
    let mut visitor = PrintLnVisitor::new();
    visitor.record_bool("ok", false);
    visitor.record_u64("count", 3);
    let event = Event {
        level: Level::Warn,
        target: String::from("net"),
        file: Some(String::from("a.rs")),
        line: Some(10),
        fields: visitor.into_fields(),
    };
    let line = PrintLnLayer.on_event(&event);
    let inner = line
        .strip_prefix("[WARN][net] ")
        .and_then(|rest| rest.strip_suffix(" - a.rs:10"))
        .map(String::from);
    assert!(inner.is_some());
    let mut tokens: Vec<String> = inner
        .unwrap_or_default()
        .split(' ')
        .map(String::from)
        .collect();
    tokens.sort();
    assert_eq!(tokens, vec![String::from("count=3"), String::from("ok=false")]);
}

#[test]
fn line_with_a_text_field_is_quoted() {
    let mut visitor = PrintLnVisitor::new();
    visitor.record_str("name", "hi");
    let line = PrintLnLayer.on_event(&event_with(visitor.into_fields()));
    assert!(line.contains("name=\"hi\""));
    assert!(!line.contains("name=hi"));
    assert_eq!(line, "[INFO][t] name=\"hi\" - ");
}

#[test]
fn line_without_fields_has_two_spaces_before_the_dash() {
    let event = Event {
        level: Level::Error,
        target: String::from("core"),
        file: Some(String::from("src/lib.rs")),
        line: Some(7),
        fields: FieldMap::new(),
    };
    assert_eq!(PrintLnLayer.on_event(&event), "[ERROR][core]  - src/lib.rs:7");
}

#[test]
fn line_without_a_location_ends_after_the_dash() {
    let mut fields = FieldMap::new();
    fields.insert("n", LogValue::I64(-1));
    assert_eq!(
        PrintLnLayer.on_event(&event_with(fields)),
        "[INFO][t] n=-1 - "
    );
}

#[test]
fn location_needs_both_file_and_line() {
    let only_file = Event {
        level: Level::Debug,
        target: String::from("t"),
        file: Some(String::from("a.rs")),
        line: None,
        fields: FieldMap::new(),
    };
    assert_eq!(PrintLnLayer.on_event(&only_file), "[DEBUG][t]  - ");
    let only_line = Event {
        level: Level::Trace,
        target: String::from("t"),
        file: None,
        line: Some(3),
        fields: FieldMap::new(),
    };
    assert_eq!(PrintLnLayer.on_event(&only_line), "[TRACE][t]  - ");
}

#[test]
fn location_is_appended_as_file_colon_line() {
    let event = Event {
        level: Level::Info,
        target: String::from("t"),
        file: Some(String::from("dir/file.rs")),
        line: Some(u32::MAX),
        fields: FieldMap::new(),
    };
    let mut out = String::from("@");
    event.append_location(&mut out);
    assert_eq!(out, "@dir/file.rs:4294967295");
    let mut none = String::from("@");
    event_with(FieldMap::new()).append_location(&mut none);
    assert_eq!(none, "@");
}

#[test]
fn line_of_every_level() {
    let levels = vec![
        (Level::Trace, "[TRACE][x]  - "),
        (Level::Debug, "[DEBUG][x]  - "),
        (Level::Info, "[INFO][x]  - "),
        (Level::Warn, "[WARN][x]  - "),
        (Level::Error, "[ERROR][x]  - "),
    ];
    for (level, expected) in levels {
        let event = Event {
            level,
            target: String::from("x"),
            file: None,
            line: None,
            fields: FieldMap::new(),
        };
        assert_eq!(PrintLnLayer.on_event(&event), expected);
    }
}

#[test]
fn line_with_all_kinds_of_values() {
    let mut visitor = PrintLnVisitor::new();
    let value: f64 = 0.5;
    visitor.record_f64("f", format!("{}", value));
    visitor.record_i64("i", i64::MIN);
    visitor.record_u64("u", u64::MAX);
    visitor.record_i128("ii", -1);
    visitor.record_u128("uu", 1);
    visitor.record_bool("b", true);
    visitor.record_str("s", "a b");
    let event = Event {
        level: Level::Debug,
        target: String::from("all"),
        file: Some(String::from("m.rs")),
        line: Some(1),
        fields: visitor.into_fields(),
    };
    assert_eq!(
        PrintLnLayer.on_event(&event),
        "[DEBUG][all] f=0.5 i=-9223372036854775808 u=18446744073709551615 ii=-1 uu=1 b=true s=\"a b\" - m.rs:1"
    );
}

#[test]
fn entries_are_read_by_place() {
    let mut map = FieldMap::new();
    map.insert("a", LogValue::U64(1));
    map.insert("b", LogValue::Bool(true));
    map.insert("a", LogValue::I64(-1));
    assert_eq!(map.len(), 2);
    assert_eq!(
        map.entry(0),
        &Field {
            name: String::from("a"),
            value: LogValue::I64(-1),
        }
    );
    assert_eq!(
        map.entry(1),
        &Field {
            name: String::from("b"),
            value: LogValue::Bool(true),
        }
    );
}

#[test]
fn no_name_occurs_twice_after_many_writes() {
    let mut map = FieldMap::new();
    let names = vec!["a", "b", "a", "c", "b", "a", "d", "c"];
    let mut value: u64 = 0;
    for name in &names {
        map.insert(name, LogValue::U64(value));
        value += 1;
    }
    assert_eq!(map.len(), 4);
    for i in 0..map.len() {
        for j in 0..map.len() {
            if i != j {
                assert_ne!(map.entry(i).name, map.entry(j).name);
            }
        }
    }
    assert_eq!(map.get("a"), Some(&LogValue::U64(5)));
    assert_eq!(map.get("b"), Some(&LogValue::U64(4)));
    assert_eq!(map.get("c"), Some(&LogValue::U64(7)));
    assert_eq!(map.get("d"), Some(&LogValue::U64(6)));
}

#[test]
fn an_event_without_line_feeds_gives_one_line() {
    let mut visitor = PrintLnVisitor::new();
    visitor.record_i128("a", i128::MIN);
    visitor.record_bool("b", false);
    visitor.record_str("c", "no feed here");
    let event = Event {
        level: Level::Error,
        target: String::from("core::log"),
        file: Some(String::from("src/log.rs")),
        line: Some(35),
        fields: visitor.into_fields(),
    };
    let line = PrintLnLayer.on_event(&event);
    assert!(!line.contains('\n'));
    assert_eq!(line.lines().count(), 1);
}

#[test]
fn a_line_feed_in_a_text_is_written_as_it_is() {
    let mut visitor = PrintLnVisitor::new();
    visitor.record_str("c", "two\nlines");
    let line = PrintLnLayer.on_event(&event_with(visitor.into_fields()));
    assert_eq!(line, "[INFO][t] c=\"two\nlines\" - ");
}
