use fast_fec_rust::writer::actions::WriterAction;
use fast_fec_rust::writer::buffer::BufferFile;
use fast_fec_rust::writer::{WriterContext, WriterError, CSV_EXTENSION};

/// The bytes that the actions deliver to the given stream, in order.
fn delivered(actions: &[WriterAction], name: &str, ext: &str) -> Vec<u8> {
    let mut out = Vec::new();
    for action in actions {
        if let WriterAction::Chunk { filename, extension, data, .. } = action {
            if filename == name && extension == ext {
                out.extend_from_slice(data);
            }
        }
    }
    out
}

/// The sizes of the chunks among the actions.
fn chunk_sizes(actions: &[WriterAction]) -> Vec<usize> {
    let mut sizes = Vec::new();
    for action in actions {
        if let WriterAction::Chunk { data, .. } = action {
            sizes.push(data.len());
        }
    }
    sizes
}

fn writer(capacity: usize) -> WriterContext {
    WriterContext::new("out".into(), "123".into(), false, capacity, true, true).unwrap()
}

#[test]
fn zero_buffer_size_is_refused() {
    let made = WriterContext::new("out".into(), "1".into(), true, 0, false, false);
    assert!(matches!(made, Err(WriterError::ZeroBufferSize)));
    assert!(WriterContext::new("out".into(), "1".into(), true, 1, false, false).is_ok());
}

#[test]
fn writes_come_out_in_order_whatever_the_flushes() {
    let mut ctx = writer(3);
    let mut all = Vec::new();
    all.extend(ctx.write_string("test", ".txt", "hi"));
    all.extend(ctx.write_string("test", ".txt", " there"));
    all.extend(ctx.write_char("test", ".txt", '\n'));
    all.extend(ctx.flush_all());
    assert_eq!(delivered(&all, "test", ".txt"), b"hi there\n");
}

#[test]
fn partial_flush_exactly_when_capacity_is_exceeded() {
    let mut ctx = writer(3);
    let first = ctx.write_string("test", ".txt", "hi");
    assert!(first.is_empty());
    let second = ctx.write_string("test", ".txt", " there!");
    assert_eq!(delivered(&second, "test", ".txt"), b"hi the");
    assert_eq!(chunk_sizes(&second), vec![3, 3]);
    let third = ctx.write_char("test", ".txt", '\n');
    assert_eq!(delivered(&third, "test", ".txt"), b"re!");
    let rest = ctx.flush_all();
    assert_eq!(delivered(&rest, "test", ".txt"), b"\n");
}

#[test]
fn a_write_that_fills_the_buffer_exactly_does_not_flush() {
    let mut ctx = writer(3);
    assert!(ctx.write_string("s", ".txt", "abc").is_empty());
    let next = ctx.write_string("s", ".txt", "d");
    assert_eq!(chunk_sizes(&next), vec![3]);
    assert_eq!(delivered(&next, "s", ".txt"), b"abc");
    assert_eq!(delivered(&ctx.flush_all(), "s", ".txt"), b"d");
}

#[test]
fn one_large_write_leaves_in_chunks_of_the_capacity() {
    let mut ctx = writer(3);
    let actions = ctx.write_string("s", ".txt", "abcdefghij");
    assert_eq!(chunk_sizes(&actions), vec![3, 3, 3]);
    assert_eq!(delivered(&actions, "s", ".txt"), b"abcdefghi");
    let rest = ctx.flush_all();
    assert_eq!(chunk_sizes(&rest), vec![1]);
    assert_eq!(delivered(&rest, "s", ".txt"), b"j");
}

#[test]
fn cutting_does_not_depend_on_how_writes_are_split() {
    let text = "the quick brown fox jumps over the lazy dog";
    for capacity in 1..8usize {
        let mut whole = writer(capacity);
        let mut at_once = whole.write_string("s", ".txt", text);
        at_once.extend(whole.flush_all());
        for cut in 0..=text.len() {
            let mut parts = writer(capacity);
            let mut split = parts.write_string("s", ".txt", &text[..cut]);
            split.extend(parts.write_string("s", ".txt", &text[cut..]));
            split.extend(parts.flush_all());
            assert_eq!(chunk_sizes(&split), chunk_sizes(&at_once));
            assert_eq!(delivered(&split, "s", ".txt"), text.as_bytes());
        }
    }
}

#[test]
fn empty_write_touches_nothing() {
    let mut ctx = writer(3);
    assert!(ctx.write_string("s", ".txt", "").is_empty());
    // no stream was made, so the line sink hears no stream name
    let line = ctx.end_line("t");
    assert_eq!(line.len(), 1);
    match &line[0] {
        WriterAction::Line { filename, line, types } => {
            assert_eq!(filename, "");
            assert_eq!(line, "");
            assert_eq!(types, "t");
        }
        other => panic!("unexpected action {:?}", other),
    }
    assert!(ctx.flush_all().is_empty());
}

#[test]
fn streams_do_not_disturb_each_other() {
    let mut ctx = writer(4);
    let mut all = Vec::new();
    all.extend(ctx.write_string("a", ".txt", "aaaaa"));
    all.extend(ctx.write_string("b", ".txt", "bb"));
    all.extend(ctx.write_string("a", ".csv", "cc"));
    all.extend(ctx.write_string("a", ".txt", "AAAA"));
    all.extend(ctx.write_string("b", ".txt", "BBB"));
    all.extend(ctx.flush_all());
    assert_eq!(delivered(&all, "a", ".txt"), b"aaaaaAAAA");
    assert_eq!(delivered(&all, "b", ".txt"), b"bbBBB");
    assert_eq!(delivered(&all, "a", ".csv"), b"cc");
    // names and extensions are held apart exactly
    assert_eq!(delivered(&all, "A", ".txt"), b"");
    assert_eq!(delivered(&all, "a", "txt"), b"");
}

#[test]
fn flush_all_twice_does_nothing_the_second_time() {
    let mut ctx = WriterContext::new("out".into(), "1".into(), true, 8, false, false).unwrap();
    ctx.write_string("a", ".txt", "abc");
    let first = ctx.flush_all();
    assert_eq!(first.len(), 2);
    assert!(matches!(&first[0], WriterAction::Chunk { to_file: true, to_sink: false, .. }));
    assert!(matches!(&first[1], WriterAction::FlushFile { .. }));
    assert!(ctx.flush_all().is_empty());
    ctx.write_string("a", ".txt", "d");
    assert_eq!(ctx.flush_all().len(), 2);
}

#[test]
fn flush_buffer_flushes_one_stream() {
    let mut ctx = writer(8);
    ctx.write_string("a", ".txt", "abc");
    ctx.write_string("b", ".txt", "xyz");
    let actions = ctx.flush_buffer("a", ".txt");
    assert_eq!(actions.len(), 1);
    assert_eq!(delivered(&actions, "a", ".txt"), b"abc");
    assert!(ctx.flush_buffer("a", ".txt").is_empty());
    assert_eq!(delivered(&ctx.flush_all(), "b", ".txt"), b"xyz");
}

#[test]
fn new_stream_on_disk_is_opened_once() {
    let mut ctx = WriterContext::new("out".into(), "F3/2020".into(), true, 8, false, false)
        .unwrap();
    let actions = ctx.write_string("SA/11A", "..csv", "x");
    assert_eq!(actions.len(), 1);
    match &actions[0] {
        WriterAction::OpenFile {
            filename,
            extension,
            output_directory,
            filing_id,
            file_stem,
            file_extension,
        } => {
            assert_eq!(filename, "SA/11A");
            assert_eq!(extension, "..csv");
            assert_eq!(output_directory, "out");
            assert_eq!(filing_id, "F3/2020");
            assert_eq!(file_stem, "SA-11A");
            assert_eq!(file_extension, "csv");
        }
        other => panic!("unexpected action {:?}", other),
    }
    assert!(ctx.write_string("SA/11A", "..csv", "y").is_empty());
    let (at, opened) = ctx.get_file_entry("SA/11A", "..csv");
    assert_eq!(at, 0);
    assert!(opened.is_empty());
    let (at, opened) = ctx.get_file_entry("other", ".txt");
    assert_eq!(at, 1);
    assert_eq!(opened.len(), 1);
}

#[test]
fn no_file_is_opened_without_disk() {
    let mut ctx = writer(8);
    assert!(ctx.write_string("a", ".txt", "x").is_empty());
    let flushed = ctx.flush_all();
    assert_eq!(flushed.len(), 1);
    assert!(matches!(&flushed[0], WriterAction::Chunk { to_file: false, to_sink: true, .. }));
}

#[test]
fn chunks_say_where_they_go() {
    for &(disk, sink) in &[(false, false), (false, true), (true, false), (true, true)] {
        let mut ctx = WriterContext::new("o".into(), "1".into(), disk, 2, sink, false).unwrap();
        let actions = ctx.write_string("a", ".txt", "abc");
        let chunks: Vec<&WriterAction> = actions
            .iter()
            .filter(|a| matches!(a, WriterAction::Chunk { .. }))
            .collect();
        assert_eq!(chunks.len(), 1);
        match chunks[0] {
            WriterAction::Chunk { to_sink, to_file, data, .. } => {
                assert_eq!(*to_sink, sink);
                assert_eq!(*to_file, disk);
                assert_eq!(data, b"ab");
            }
            _ => unreachable!(),
        }
    }
}

#[test]
fn local_capture_touches_no_stream() {
    let mut ctx = writer(3);
    ctx.write_string("a", ".txt", "ab");
    ctx.start_local_buffer_mode();
    assert!(ctx.write_string("a", ".txt", "captured ").is_empty());
    assert!(ctx.write_char("b", ".txt", '!').is_empty());
    assert!(ctx.write_string("a", ".txt", " and more").is_empty());
    assert!(ctx.write_bytes("a", ".txt", b" bytes").is_empty());
    assert_eq!(ctx.finish_local_buffer_mode(), "captured ! and more bytes");
    // the stream is as it was, and no stream was made for "b"
    let rest = ctx.flush_all();
    assert_eq!(rest.len(), 1);
    assert_eq!(delivered(&rest, "a", ".txt"), b"ab");
    // the line sink heard nothing of the captured text
    match &ctx.end_line("")[0] {
        WriterAction::Line { line, filename, .. } => {
            assert_eq!(line, "ab");
            assert_eq!(filename, "a");
        }
        other => panic!("unexpected action {:?}", other),
    }
}

#[test]
fn local_capture_edges() {
    let mut ctx = writer(3);
    // leaving local mode without having entered it
    assert_eq!(ctx.finish_local_buffer_mode(), "");
    // entering it again drops what was captured
    ctx.start_local_buffer_mode();
    ctx.write_string("a", ".txt", "first");
    ctx.start_local_buffer_mode();
    ctx.write_string("a", ".txt", "second");
    assert_eq!(ctx.finish_local_buffer_mode(), "second");
    assert_eq!(ctx.finish_local_buffer_mode(), "");
    assert!(ctx.flush_all().is_empty());
}

#[test]
fn local_capture_of_bytes_that_are_no_text() {
    let mut ctx = writer(3);
    ctx.start_local_buffer_mode();
    ctx.write_bytes("a", ".txt", &[0x41, 0xFF, 0x42]);
    assert_eq!(ctx.finish_local_buffer_mode(), "A\u{fffd}B");
}

#[test]
fn end_line_hands_over_the_pending_line() {
    let mut ctx = writer(300);
    ctx.write_string("first", ".txt", "a,");
    ctx.write_char("second", ".txt", 'b');
    let actions = ctx.end_line("ss");
    assert_eq!(actions.len(), 1);
    match &actions[0] {
        WriterAction::Line { filename, line, types } => {
            assert_eq!(filename, "second");
            assert_eq!(line, "a,b");
            assert_eq!(types, "ss");
        }
        other => panic!("unexpected action {:?}", other),
    }
    match &ctx.end_line("")[0] {
        WriterAction::Line { line, .. } => assert_eq!(line, ""),
        other => panic!("unexpected action {:?}", other),
    }
}

#[test]
fn end_line_without_a_line_sink() {
    let mut ctx = WriterContext::new("o".into(), "1".into(), false, 8, true, false).unwrap();
    ctx.write_string("a", ".txt", "abc");
    assert!(ctx.end_line("").is_empty());
}

#[test]
fn records_go_to_the_csv_stream() {
    let mut ctx = writer(1000);
    let fields = vec!["a".to_string(), "b,c".to_string(), "say \"hi\"".to_string()];
    assert!(ctx.write_csv_record("output", &fields).is_empty());
    let flushed = ctx.flush_all();
    assert_eq!(CSV_EXTENSION, ".csv");
    assert_eq!(delivered(&flushed, "output", "csv"), b"");
    assert_eq!(
        delivered(&flushed, "output", ".csv"),
        b"a,\"b,c\",\"say \"\"hi\"\"\"\n"
    );
    // a record does not join the pending line
    match &ctx.end_line("")[0] {
        WriterAction::Line { line, .. } => assert_eq!(line, ""),
        other => panic!("unexpected action {:?}", other),
    }
}

#[test]
fn records_are_captured_in_local_mode() {
    let mut ctx = writer(4);
    ctx.start_local_buffer_mode();
    let fields = vec!["x".to_string(), "".to_string(), "caf\u{e9}".to_string()];
    assert!(ctx.write_csv_record("output", &fields).is_empty());
    assert_eq!(ctx.finish_local_buffer_mode(), "x,,caf\u{e9}\n");
    assert!(ctx.flush_all().is_empty());
}

#[test]
fn buffer_file_fills_and_hands_back_the_rest() {
    let mut buffer = BufferFile::new(4);
    assert_eq!(buffer.capacity(), 4);
    assert!(buffer.is_empty());
    assert_eq!(buffer.write_bytes(b"ab"), Vec::<u8>::new());
    assert_eq!(buffer.position(), 2);
    assert!(!buffer.is_empty());
    assert_eq!(buffer.write_bytes(b"cdef"), b"ef".to_vec());
    assert_eq!(buffer.position(), 4);
    assert_eq!(buffer.write_bytes(b"gh"), b"gh".to_vec());
    assert_eq!(buffer.take(), b"abcd".to_vec());
    assert!(buffer.is_empty());
    assert_eq!(buffer.write_bytes(b"xyz"), Vec::<u8>::new());
    buffer.clear();
    assert!(buffer.is_empty());
    assert_eq!(buffer.position(), 0);
    assert_eq!(buffer.capacity(), 4);
}

#[test]
fn buffer_file_of_no_capacity_takes_nothing() {
    let mut buffer = BufferFile::new(0);
    assert_eq!(buffer.write_bytes(b"ab"), b"ab".to_vec());
    assert!(buffer.is_empty());
    assert_eq!(buffer.write_bytes(b""), Vec::<u8>::new());
}

#[test]
fn records_and_text_share_the_csv_stream() {
    let mut ctx = writer(1000);
    ctx.write_string("output", ".csv", "id,name\n");
    ctx.write_csv_record("output", &vec!["1".to_string(), "a,b".to_string()]);
    ctx.write_string("output", CSV_EXTENSION, "2,c\n");
    let flushed = ctx.flush_all();
    assert_eq!(flushed.len(), 1);
    assert_eq!(delivered(&flushed, "output", ".csv"), b"id,name\n1,\"a,b\"\n2,c\n");
}

#[test]
fn failed_open_leaves_no_trace() {
    let mut ctx = WriterContext::new("out".into(), "1".into(), true, 4, true, true).unwrap();
    ctx.write_string("kept", ".txt", "ab");
    // the file of a new stream cannot be opened: the host says so at once
    let actions = ctx.write_string("lost", ".txt", "0123456789");
    assert!(matches!(&actions[0], WriterAction::OpenFile { .. }));
    ctx.open_failed("lost", ".txt");
    // the most recently used stream is the one from before
    ctx.end_line("");
    ctx.write_char("kept", ".txt", 'c');
    match &ctx.end_line("")[0] {
        WriterAction::Line { filename, .. } => assert_eq!(filename, "kept"),
        other => panic!("unexpected action {:?}", other),
    }
    // the next write to the stream asks for its file again
    let again = ctx.write_string("lost", ".txt", "xy");
    assert_eq!(again.len(), 1);
    assert!(matches!(&again[0], WriterAction::OpenFile { .. }));
    let flushed = ctx.flush_all();
    assert_eq!(delivered(&flushed, "kept", ".txt"), b"abc");
    assert_eq!(delivered(&flushed, "lost", ".txt"), b"xy");
}

#[test]
fn failed_open_of_the_first_stream() {
    let mut ctx = WriterContext::new("out".into(), "1".into(), true, 4, false, true).unwrap();
    let actions = ctx.open_stream("a", ".txt", 3);
    assert_eq!(actions.len(), 1);
    ctx.open_failed("a", ".txt");
    match &ctx.end_line("")[0] {
        WriterAction::Line { filename, .. } => assert_eq!(filename, ""),
        other => panic!("unexpected action {:?}", other),
    }
    assert!(ctx.flush_all().is_empty());
    // a report for a stream that is not the newest changes nothing
    ctx.write_string("a", ".txt", "x");
    ctx.write_string("b", ".txt", "y");
    ctx.open_failed("a", ".txt");
    ctx.open_failed("unknown", ".txt");
    let flushed = ctx.flush_all();
    assert_eq!(delivered(&flushed, "a", ".txt"), b"x");
    assert_eq!(delivered(&flushed, "b", ".txt"), b"y");
}

#[test]
fn stream_is_opened_before_the_write() {
    let mut ctx = WriterContext::new("out".into(), "1".into(), true, 4, false, false).unwrap();
    assert!(!ctx.is_local());
    // nothing to open for an empty write, nor in local mode
    assert!(ctx.open_stream("a", ".txt", 0).is_empty());
    ctx.start_local_buffer_mode();
    assert!(ctx.is_local());
    assert!(ctx.open_stream("a", ".txt", 3).is_empty());
    ctx.finish_local_buffer_mode();
    let opened = ctx.open_stream("a", ".txt", 3);
    assert_eq!(opened.len(), 1);
    assert!(matches!(&opened[0], WriterAction::OpenFile { .. }));
    // the write that follows finds the stream and asks for no file
    assert!(ctx.write_string("a", ".txt", "abc").is_empty());
    assert!(ctx.open_stream("a", ".txt", 3).is_empty());
}

#[test]
fn chunks_are_never_empty_nor_larger_than_the_buffer() {
    let text = "0123456789abcdefghijklmnopqrstuvwxyz";
    for capacity in 1..10usize {
        let mut ctx = writer(capacity);
        let mut all = Vec::new();
        for (i, c) in text.chars().enumerate() {
            let name = if i % 3 == 0 { "a" } else { "b" };
            all.extend(ctx.write_char(name, ".txt", c));
            all.extend(ctx.write_string(name, ".txt", &text[..i % 7]));
        }
        all.extend(ctx.flush_all());
        for size in chunk_sizes(&all) {
            assert!(1 <= size && size <= capacity);
        }
        assert!(ctx.flush_all().is_empty());
    }
}

#[test]
fn buffer_position_stays_within_capacity() {
    let mut buffer = BufferFile::new(3);
    for piece in [&b"a"[..], b"bc", b"defg", b""] {
        buffer.write_bytes(piece);
        assert!(buffer.position() <= buffer.capacity());
    }
    assert_eq!(buffer.position(), 3);
}
