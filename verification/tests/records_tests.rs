use fast_fec_rust::cli::args::{
    resolve_args, CliArguments, DEFAULT_BUFFER_SIZE, DEFAULT_OUTPUT_DIRECTORY, STDIN_NAME,
};
use fast_fec_rust::csv_helper::{
    count_field, escape_field, parse_line, parse_stream, write_csv_record, write_escaped_field,
    CsvParseContext, FieldInfo,
};
use fast_fec_rust::errors::FecError;
use fast_fec_rust::fec::context::{pattern_matches, FecContext, F99_TEXT_END, F99_TEXT_START};
use fast_fec_rust::fec::parser::{
    parse_csv_line, parse_data_line, parse_fec, parse_first_line, parse_header,
    parse_with_delimiter, HeaderKind, LineKind,
};
use fast_fec_rust::writer::actions::WriterAction;
use fast_fec_rust::writer::WriterContext;

fn strings(fields: &[&str]) -> Vec<String> {
    fields.iter().map(|f| f.to_string()).collect()
}

fn delivered(actions: &[WriterAction]) -> Vec<u8> {
    let mut out = Vec::new();
    for action in actions {
        if let WriterAction::Chunk { data, .. } = action {
            out.extend_from_slice(data);
        }
    }
    out
}

#[test]
fn record_escaping() {
    assert_eq!(write_csv_record(&strings(&["a", "b", "c"])), b"a,b,c\n");
    assert_eq!(write_csv_record(&strings(&["a,b"])), b"\"a,b\"\n");
    assert_eq!(write_csv_record(&strings(&["a\"b"])), b"\"a\"\"b\"\n");
    assert_eq!(write_csv_record(&strings(&["\""])), b"\"\"\"\"\n");
    assert_eq!(write_csv_record(&strings(&["plain", "x y", "caf\u{e9}"])), "plain,x y,caf\u{e9}\n".as_bytes());
    assert_eq!(write_csv_record(&strings(&["", ""])), b",\n");
    assert_eq!(write_csv_record(&strings(&["", "a"])), b",a\n");
}

#[test]
fn record_escaping_of_line_breaks_and_empty_records() {
    assert_eq!(write_csv_record(&strings(&["a\nb"])), b"\"a\nb\"\n");
    assert_eq!(write_csv_record(&strings(&["a\rb", "c"])), b"\"a\rb\",c\n");
    assert_eq!(write_csv_record(&strings(&[""])), b"\"\"\n");
    assert_eq!(write_csv_record(&strings(&[])), b"\"\"\n");
}

#[test]
fn record_round_trip_through_the_reader() {
    let records: Vec<Vec<String>> = vec![
        strings(&["a", "b", "c"]),
        strings(&["with,comma", "with \"quote\"", "plain"]),
        strings(&["", "x", ""]),
        strings(&["\"", ",", "\",\""]),
        strings(&["caf\u{e9}", "\u{20ac}5", " padded "]),
        strings(&["one"]),
    ];
    for record in records {
        let written = String::from_utf8(write_csv_record(&record)).unwrap();
        assert_eq!(parse_csv_line(&written).unwrap(), record);
    }
}

#[test]
fn field_escaped_by_hand() {
    assert_eq!(escape_field("plain"), "plain");
    assert_eq!(escape_field(""), "");
    assert_eq!(escape_field("a,b"), "\"a,b\"");
    assert_eq!(escape_field("say \"hi\""), "\"say \"\"hi\"\"\"");
    assert_eq!(escape_field("line\nbreak"), "line\nbreak");
    assert_eq!(write_escaped_field("plain"), b"plain\n");
    assert_eq!(write_escaped_field("a,b"), b"\"a,b\"\n");
    assert_eq!(write_escaped_field("say \"hi\""), b"\"say \"\"hi\"\"\"\n");
    // the field is escaped once, so that a reader gets it back
    for field in ["a,b", "say \"hi\"", "plain", "\"", "line\nbreak"] {
        let written = String::from_utf8(write_escaped_field(field)).unwrap();
        assert_eq!(parse_csv_line(&written).unwrap(), vec![field.to_string()]);
    }
    // without line breaks it is the field escaped by hand, and a line feed
    for field in ["a,b", "say \"hi\"", "plain", "\"", ","] {
        let mut by_hand = escape_field(field).into_bytes();
        by_hand.push(b'\n');
        assert_eq!(write_escaped_field(field), by_hand);
    }
}

#[test]
fn counts_of_a_field() {
    let info = count_field("a,\"b\",c,");
    assert_eq!(info.num_commas, 3);
    assert_eq!(info.num_quotes, 2);
    let info = count_field("caf\u{e9}");
    assert_eq!(info.num_commas, 0);
    assert_eq!(info.num_quotes, 0);
    let info = FieldInfo::default();
    assert_eq!((info.num_commas, info.num_quotes), (0, 0));
}

#[test]
fn parse_context_starts_empty() {
    let context = CsvParseContext::new();
    assert!(!context.ascii28_present);
    assert!(context.fields_info.is_empty());
}

#[test]
fn parse_line_with_the_separator() {
    let (fields, context) = parse_line("F3 \u{1c} a,b \u{1c}\"q\"\u{1c}").unwrap();
    assert_eq!(fields, strings(&["F3", "a,b", "\"q\"", ""]));
    assert!(context.ascii28_present);
    assert_eq!(context.fields_info.len(), 4);
    assert_eq!(context.fields_info[1].num_commas, 1);
    assert_eq!(context.fields_info[2].num_quotes, 2);
    assert_eq!(context.fields_info[3].num_commas, 0);
}

#[test]
fn parse_line_of_comma_separated_values() {
    let (fields, context) = parse_line("F3,\"a,b\",\"say \"\"hi\"\"\", x ").unwrap();
    assert_eq!(fields, strings(&["F3", "a,b", "say \"hi\"", " x "]));
    assert!(!context.ascii28_present);
    assert_eq!(context.fields_info.len(), 4);
    assert_eq!(context.fields_info[1].num_commas, 1);
    assert_eq!(context.fields_info[2].num_quotes, 2);

    let (fields, context) = parse_line("").unwrap();
    assert!(fields.is_empty());
    assert!(context.fields_info.is_empty());
    assert!(!context.ascii28_present);
}

#[test]
fn parse_stream_of_lines() {
    let lines = strings(&["a,b", "x\u{1c}y\u{1c}z", "", "\"q,r\",s"]);
    let parsed = parse_stream(&lines).unwrap();
    assert_eq!(
        parsed,
        vec![
            strings(&["a", "b"]),
            strings(&["x", "y", "z"]),
            strings(&[]),
            strings(&["q,r", "s"]),
        ]
    );
    assert_eq!(parse_stream(&Vec::new()).unwrap(), Vec::<Vec<String>>::new());
}

#[test]
fn split_at_the_delimiter() {
    assert_eq!(parse_with_delimiter("a\u{1c}b\u{1c}c", '\u{1c}'), strings(&["a", "b", "c"]));
    assert_eq!(parse_with_delimiter("", ','), strings(&[""]));
    assert_eq!(parse_with_delimiter(",", ','), strings(&["", ""]));
    assert_eq!(parse_with_delimiter("a,,b,", ','), strings(&["a", "", "b", ""]));
    assert_eq!(parse_with_delimiter("no delimiter", ';'), strings(&["no delimiter"]));
    assert_eq!(parse_with_delimiter("\u{e9}|\u{20ac}", '|'), strings(&["\u{e9}", "\u{20ac}"]));
}

#[test]
fn csv_line_fields() {
    assert_eq!(parse_csv_line("a,b").unwrap(), strings(&["a", "b"]));
    assert_eq!(parse_csv_line("\"a,b\",c").unwrap(), strings(&["a,b", "c"]));
    assert_eq!(parse_csv_line("").unwrap(), Vec::<String>::new());
    assert_eq!(parse_csv_line("first\nsecond").unwrap(), strings(&["first"]));
}

#[test]
fn header_kinds() {
    assert_eq!(parse_header("  /* Header\n"), HeaderKind::Legacy);
    assert_eq!(parse_header("/* FEC */"), HeaderKind::Legacy);
    assert_eq!(parse_header("HDR\u{1c}FEC\u{1c}8.3\n"), HeaderKind::Modern);
    assert_eq!(parse_header("HDR,fec,8.3\n"), HeaderKind::Plain);
    assert_eq!(parse_header(""), HeaderKind::Plain);
}

#[test]
fn text_block_patterns() {
    assert!(pattern_matches(F99_TEXT_START, "[BEGINTEXT]").unwrap());
    assert!(pattern_matches(F99_TEXT_START, "  [begin text]  ").unwrap());
    assert!(!pattern_matches(F99_TEXT_START, "x [BEGINTEXT]").unwrap());
    assert!(pattern_matches(F99_TEXT_END, "[End Text]").unwrap());
    assert!(!pattern_matches(F99_TEXT_END, "[BEGINTEXT]").unwrap());
    match pattern_matches("(", "x") {
        Err(FecError::ParseError(reason)) => assert!(reason.starts_with("Invalid pattern: ")),
        other => panic!("unexpected result {:?}", other),
    }
}

#[test]
fn context_starts_clean_and_compares_by_fields() {
    let context = FecContext::new("12345".to_string(), true, false, true);
    assert_eq!(context.f99_text_start, "(?i)^\\s*\\[BEGIN ?TEXT\\]\\s*$");
    assert_eq!(context.f99_text_end, "(?i)^\\s*\\[END ?TEXT\\]\\s*$");
    assert_eq!(context.version, None);
    assert_eq!(context.version_length, 0);
    assert!(!context.silent && context.warn && !context.use_ascii28 && !context.summary);
    assert_eq!(context.form_type, None);
    assert_eq!(context.num_fields, 0);
    assert!(context.include_filing_id);
    assert_eq!(context.fec_id, "12345");
    assert!(!context.in_f99_text);
    assert_eq!(context.f99_text, "");

    let same = FecContext::new("12345".to_string(), true, false, true);
    assert!(context == same);
    let mut other = FecContext::new("12345".to_string(), true, false, true);
    other.version = Some("8.3".to_string());
    assert!(context != other);
    let mut other = FecContext::new("12345".to_string(), true, false, true);
    other.f99_text_end = "x".to_string();
    assert!(context != other);
    assert!(context != FecContext::new("12346".to_string(), true, false, true));
    assert!(context != FecContext::new("12345".to_string(), false, false, true));
}

fn lines(text: &[&str]) -> Vec<Vec<u8>> {
    text.iter().map(|l| l.as_bytes().to_vec()).collect()
}

#[test]
fn filing_with_commas() {
    let mut ctx = FecContext::new("1".to_string(), false, true, false);
    let mut writer = WriterContext::new("o".into(), "1".into(), false, 1000, true, false).unwrap();
    let run = parse_fec(
        &mut ctx,
        &lines(&["HDR,FEC,8.3\n", "F3,Version 8.3,\"Smith, John\"\n", "\n", "SA,1,2\n"]),
        &mut writer,
    );
    assert!(run.error.is_none());
    assert_eq!(run.header, Some(HeaderKind::Modern));
    assert_eq!(run.outcomes.len(), 3);
    assert_eq!(run.outcomes[0].kind, LineKind::Record);
    assert_eq!(run.outcomes[0].num_fields, 3);
    assert!(run.outcomes[0].version_found);
    assert_eq!(run.outcomes[1].kind, LineKind::Blank);
    assert_eq!(run.outcomes[2].kind, LineKind::Record);
    assert!(!run.outcomes[2].version_found);
    assert!(!ctx.use_ascii28);
    assert_eq!(ctx.version, Some("Version 8.3".to_string()));
    assert_eq!(ctx.version_length, 11);
    assert_eq!(
        delivered(&writer.flush_all()),
        b"F3,Version 8.3,\"Smith, John\"\nSA,1,2\n"
    );
}

#[test]
fn filing_with_the_separator_and_a_text_block() {
    let mut ctx = FecContext::new("1".to_string(), false, true, false);
    let mut writer = WriterContext::new("o".into(), "1".into(), false, 8, true, false).unwrap();
    let mut input = lines(&[
        "HDR\u{1c}FEC\u{1c}8.3\n",
        "F99\u{1c}a,b\u{1c}c\n",
        "[BEGINTEXT]\n",
        "free, text\n",
        "more\n",
        " [endtext] \n",
        "SA,x\u{1c}y\n",
    ]);
    // a line that is not valid UTF-8 is read as Latin-1
    input.push(vec![b'n', 0xE9, 28, b'z', b'\n']);
    let run = parse_fec(&mut ctx, &input, &mut writer);
    assert!(run.error.is_none());
    assert!(ctx.use_ascii28);
    let kinds: Vec<LineKind> = run.outcomes.iter().map(|o| o.kind).collect();
    assert_eq!(
        kinds,
        vec![
            LineKind::Record,
            LineKind::TextStart,
            LineKind::Text,
            LineKind::Text,
            LineKind::TextEnd,
            LineKind::Record,
            LineKind::Record,
        ]
    );
    assert_eq!(ctx.f99_text, "free, text\nmore\n");
    assert!(!ctx.in_f99_text);
    let mut out = Vec::new();
    for outcome in &run.outcomes {
        out.extend(delivered(&outcome.actions));
    }
    out.extend(delivered(&writer.flush_all()));
    assert_eq!(
        String::from_utf8(out).unwrap(),
        "F99,\"a,b\",c\n\"SA,x\",y\nn\u{e9},z\n"
    );
}

#[test]
fn filing_without_lines() {
    let mut ctx = FecContext::new("1".to_string(), false, true, false);
    let mut writer = WriterContext::new("o".into(), "1".into(), false, 8, true, false).unwrap();
    let run = parse_fec(&mut ctx, &Vec::new(), &mut writer);
    assert_eq!(run.header, None);
    assert!(run.outcomes.is_empty());
    match run.error {
        Some(FecError::ParseError(reason)) => assert_eq!(reason, "No data to parse."),
        other => panic!("unexpected error {:?}", other),
    }
}

#[test]
fn filing_with_a_pattern_that_is_none() {
    let mut ctx = FecContext::new("1".to_string(), false, true, false);
    ctx.f99_text_start = "(".to_string();
    let mut writer = WriterContext::new("o".into(), "1".into(), false, 8, true, false).unwrap();
    let run = parse_fec(&mut ctx, &lines(&["HDR\n", "a,b\n", "c,d\n"]), &mut writer);
    assert_eq!(run.header, Some(HeaderKind::Plain));
    assert!(run.outcomes.is_empty());
    assert!(matches!(run.error, Some(FecError::ParseError(_))));
    assert!(writer.flush_all().is_empty());
}

#[test]
fn version_is_found_in_any_case() {
    let mut ctx = FecContext::new("1".to_string(), false, true, false);
    let mut writer = WriterContext::new("o".into(), "1".into(), false, 64, true, false).unwrap();
    let run = parse_fec(&mut ctx, &lines(&["h\n", "a,FEC VERSION 8\n"]), &mut writer);
    assert!(run.outcomes[0].version_found);
    assert_eq!(ctx.version, Some("FEC VERSION 8".to_string()));
    let run = parse_fec(&mut ctx, &lines(&["h\n", "version,b\n", "only\n"]), &mut writer);
    assert!(!run.outcomes[0].version_found);
    assert!(!run.outcomes[1].version_found);
    assert_eq!(run.outcomes[1].num_fields, 1);
}

#[test]
fn error_messages() {
    assert_eq!(
        FecError::ParseError("bad line".to_string()).message(),
        "Parsing error: bad line"
    );
    let io = std::io::Error::new(std::io::ErrorKind::NotFound, "gone");
    assert_eq!(FecError::from(io).message(), "I/O error: gone");
    let converted: FecError = std::io::Error::new(std::io::ErrorKind::Other, "x").into();
    assert!(matches!(converted, FecError::Io(_)));
}

fn arguments() -> CliArguments {
    CliArguments {
        fec_id: None,
        include_filing_id: false,
        silent: false,
        warn: false,
        disable_stdin: false,
        show_usage: false,
        output_directory: None,
        write_to_disk: false,
        buffer_size: None,
    }
}

#[test]
fn settings_defaults() {
    let config = resolve_args(arguments(), false);
    assert_eq!(config.fec_id, "");
    assert!(!config.use_stdin);
    assert_eq!(config.output_directory, "output");
    assert_eq!(config.output_directory, DEFAULT_OUTPUT_DIRECTORY);
    assert_eq!(config.buffer_size, 4096);
    assert_eq!(config.buffer_size, DEFAULT_BUFFER_SIZE);
    assert!(!config.include_filing_id && !config.silent && !config.warn);
    assert!(!config.show_usage && !config.write_to_disk);
}

#[test]
fn settings_stdin() {
    let config = resolve_args(arguments(), true);
    assert!(config.use_stdin);
    assert_eq!(config.fec_id, "STDIN_DATA");
    assert_eq!(config.fec_id, STDIN_NAME);

    let mut args = arguments();
    args.disable_stdin = true;
    let config = resolve_args(args, true);
    assert!(!config.use_stdin);
    assert_eq!(config.fec_id, "");

    let mut args = arguments();
    args.fec_id = Some("12345".to_string());
    let config = resolve_args(args, true);
    assert!(!config.use_stdin);
    assert_eq!(config.fec_id, "12345");
}

#[test]
fn settings_given() {
    let mut args = arguments();
    args.fec_id = Some("some_id".to_string());
    args.include_filing_id = true;
    args.silent = true;
    args.warn = true;
    args.show_usage = true;
    args.write_to_disk = true;
    args.output_directory = Some("custom_output".to_string());
    args.buffer_size = Some("16384".to_string());
    let config = resolve_args(args, false);
    assert_eq!(config.fec_id, "some_id");
    assert!(config.include_filing_id && config.silent && config.warn);
    assert!(config.show_usage && config.write_to_disk);
    assert_eq!(config.output_directory, "custom_output");
    assert_eq!(config.buffer_size, 16384);

    let mut args = arguments();
    args.buffer_size = Some("invalid".to_string());
    assert_eq!(resolve_args(args, false).buffer_size, 4096);
    let mut args = arguments();
    args.buffer_size = Some("0".to_string());
    assert_eq!(resolve_args(args, false).buffer_size, 0);
}

#[test]
fn white_space_is_trimmed_as_unicode_defines_it() {
    let white: Vec<u32> = vec![
        0x09, 0x0a, 0x0b, 0x0c, 0x0d, 0x20, 0x85, 0xa0, 0x1680, 0x2000, 0x2001, 0x2002, 0x2003,
        0x2004, 0x2005, 0x2006, 0x2007, 0x2008, 0x2009, 0x200a, 0x2028, 0x2029, 0x202f, 0x205f,
        0x3000,
    ];
    for code in 0..=0x10ffffu32 {
        if let Some(c) = char::from_u32(code) {
            assert_eq!(c.is_whitespace(), white.contains(&code), "U+{:04X}", code);
        }
    }
    // through the library: white space around a header and around a field
    for &code in &white {
        let c = char::from_u32(code).unwrap();
        let line = format!("{}{}/* old{}", c, c, c);
        assert_eq!(parse_header(&line), HeaderKind::Legacy);
        let line = format!("{}a{}\x1c{}b c{}{}", c, c, c, c, c);
        let (fields, _) = parse_line(&line).unwrap();
        assert_eq!(fields, strings(&["a", "b c"]));
    }
    // what is no white space stays
    assert_eq!(parse_header("\u{200b}/* x"), HeaderKind::Plain);
    assert_eq!(parse_header("_/* x"), HeaderKind::Plain);
    let (fields, _) = parse_line("\u{180e}a\u{1c}\u{feff}b").unwrap();
    assert_eq!(fields, strings(&["\u{180e}a", "\u{feff}b"]));
    let (fields, _) = parse_line(" \t \u{1c}").unwrap();
    assert_eq!(fields, strings(&["", ""]));
}

#[test]
fn buffer_size_as_typed() {
    let cases: Vec<(&str, usize)> = vec![
        ("1", 1),
        ("+5", 5),
        ("007", 7),
        ("8192", 8192),
        ("", 4096),
        ("+", 4096),
        ("-1", 4096),
        (" 5", 4096),
        ("5 ", 4096),
        ("1_000", 4096),
        ("0x10", 4096),
        ("++5", 4096),
        ("5+", 4096),
        ("99999999999999999999999999", 4096),
    ];
    for (typed, expected) in cases {
        let mut args = arguments();
        args.buffer_size = Some(typed.to_string());
        assert_eq!(resolve_args(args, false).buffer_size, expected, "{:?}", typed);
    }
    let mut args = arguments();
    args.buffer_size = Some(usize::MAX.to_string());
    assert_eq!(resolve_args(args, false).buffer_size, usize::MAX);
}

#[test]
fn first_line_decides_the_delimiter() {
    let mut ctx = FecContext::new("1".to_string(), false, true, false);
    assert_eq!(
        parse_first_line(&mut ctx, Some(b"HDR\x1cFEC\x1c8.3\n")).unwrap(),
        HeaderKind::Modern
    );
    assert!(ctx.use_ascii28);
    assert_eq!(parse_first_line(&mut ctx, Some(b"/* old */\n")).unwrap(), HeaderKind::Legacy);
    assert!(!ctx.use_ascii28);
    ctx.use_ascii28 = true;
    match parse_first_line(&mut ctx, None) {
        Err(FecError::ParseError(reason)) => assert_eq!(reason, "No data to parse."),
        other => panic!("unexpected result {:?}", other),
    }
    assert!(ctx.use_ascii28);
}

#[test]
fn data_lines_one_by_one() {
    let mut ctx = FecContext::new("1".to_string(), false, true, false);
    let mut writer = WriterContext::new("o".into(), "1".into(), true, 64, false, false).unwrap();
    parse_first_line(&mut ctx, Some(b"HDR,FEC\n")).unwrap();
    let outcome = parse_data_line(&mut ctx, b"F3,Version 1,x\n", &mut writer).unwrap();
    assert_eq!(outcome.kind, LineKind::Record);
    assert_eq!(outcome.num_fields, 3);
    assert!(outcome.version_found);
    assert_eq!(ctx.version, Some("Version 1".to_string()));
    // the first record asks for the file of the record stream
    assert_eq!(outcome.actions.len(), 1);
    match &outcome.actions[0] {
        WriterAction::OpenFile { filename, extension, file_stem, file_extension, .. } => {
            assert_eq!(filename, "output");
            assert_eq!(extension, ".csv");
            assert_eq!(file_stem, "output");
            assert_eq!(file_extension, "csv");
        }
        other => panic!("unexpected action {:?}", other),
    }
    // a line that is not valid UTF-8 is read as Latin-1
    let outcome = parse_data_line(&mut ctx, &[b'n', 0xE9, b',', b'z', b'\n'], &mut writer).unwrap();
    assert_eq!(outcome.num_fields, 2);
    assert!(outcome.actions.is_empty());
    assert_eq!(
        String::from_utf8(delivered(&writer.flush_all())).unwrap(),
        "F3,Version 1,x\nn\u{e9},z\n"
    );
}
