use anyhow::Result;
use fast_fec_rust::writer::actions::WriterAction;
use fast_fec_rust::writer::WriterContext;
use std::sync::{Arc, Mutex};

/// Captures what reaches the byte sink and the line sink during a test.
struct TestOutput {
    file_output: String,
    line_output: String,
}

fn reset_output() -> Arc<Mutex<TestOutput>> {
    Arc::new(Mutex::new(TestOutput {
        file_output: String::new(),
        line_output: String::new(),
    }))
}

/// Carries out the actions as a host with a byte sink and a line sink does.
fn deliver(
    actions: Vec<WriterAction>,
    to_file: &dyn Fn(&str, &str, &[u8]) -> Result<()>,
    to_line: &dyn Fn(&str, &str, &str) -> Result<()>,
) -> Result<()> {
    for action in actions {
        match action {
            WriterAction::Chunk { filename, extension, data, to_sink, .. } => {
                if to_sink {
                    to_file(&filename, &extension, &data)?;
                }
            }
            WriterAction::Line { filename, line, types } => {
                to_line(&filename, &line, &types)?;
            }
            WriterAction::OpenFile { .. } | WriterAction::FlushFile { .. } => {}
        }
    }
    Ok(())
}

fn file_sink(output: &Arc<Mutex<TestOutput>>) -> impl Fn(&str, &str, &[u8]) -> Result<()> {
    let output = Arc::clone(output);
    move |_: &str, _: &str, contents: &[u8]| -> Result<()> {
        let mut out = output.lock().unwrap();
        for &b in contents {
            out.file_output.push(b as char);
        }
        Ok(())
    }
}

fn line_sink(output: &Arc<Mutex<TestOutput>>) -> impl Fn(&str, &str, &str) -> Result<()> {
    let output = Arc::clone(output);
    move |_: &str, line: &str, _: &str| -> Result<()> {
        let mut out = output.lock().unwrap();
        out.line_output.clear();
        out.line_output.push_str(line);
        Ok(())
    }
}

#[test]
fn test_writer() -> Result<()> {
    let test_output = reset_output();
    let to_file = file_sink(&test_output);
    let to_line = line_sink(&test_output);

    let mut ctx = WriterContext::new("".into(), "".into(), false, 3, true, true).unwrap();

    // Write partial string
    deliver(ctx.write_string("test", ".txt", "hi"), &to_file, &to_line)?;
    assert_eq!(test_output.lock().unwrap().file_output, "");
    assert_eq!(test_output.lock().unwrap().line_output, "");

    // Write more to overflow the buffer
    deliver(ctx.write_string("test", ".txt", " there"), &to_file, &to_line)?;
    assert_eq!(test_output.lock().unwrap().file_output, "hi the");
    assert_eq!(test_output.lock().unwrap().line_output, "");

    // Write newline and flush
    deliver(ctx.write_char("test", ".txt", '\n'), &to_file, &to_line)?;
    deliver(ctx.end_line(""), &to_file, &to_line)?;
    deliver(ctx.flush_all(), &to_file, &to_line)?;

    let out = test_output.lock().unwrap();
    assert_eq!(out.file_output, "hi there\n");
    assert_eq!(out.line_output, "hi there\n");

    Ok(())
}

#[test]
fn test_writer_end_on_buffer_size() -> Result<()> {
    let test_output = reset_output();
    let to_file = file_sink(&test_output);
    let to_line = line_sink(&test_output);

    let mut ctx = WriterContext::new("".into(), "".into(), false, 3, true, true).unwrap();

    deliver(ctx.write_string("test", ".txt", "hi"), &to_file, &to_line)?;
    assert_eq!(test_output.lock().unwrap().file_output, ""); // No flush yet

    deliver(ctx.write_string("test", ".txt", " there!"), &to_file, &to_line)?;
    assert_eq!(test_output.lock().unwrap().file_output, "hi the"); // Partial flush

    deliver(ctx.write_char("test", ".txt", '\n'), &to_file, &to_line)?;
    deliver(ctx.end_line(""), &to_file, &to_line)?;
    deliver(ctx.flush_all(), &to_file, &to_line)?; // Ensure all data is flushed

    let out = test_output.lock().unwrap();
    assert_eq!(out.file_output, "hi there!\n"); // After full flush
    assert_eq!(out.line_output, "hi there!\n");

    Ok(())
}

#[test]
fn test_writer_massive_buffer() -> Result<()> {
    let test_output = reset_output();
    let to_file = file_sink(&test_output);
    let to_line = line_sink(&test_output);

    let mut ctx = WriterContext::new("".into(), "".into(), false, 300, true, true).unwrap();

    deliver(ctx.write_string("test", ".txt", "hi"), &to_file, &to_line)?;
    assert_eq!(test_output.lock().unwrap().file_output, "");

    deliver(ctx.write_string("test", ".txt", " there!"), &to_file, &to_line)?;
    assert_eq!(test_output.lock().unwrap().file_output, "");

    deliver(ctx.write_char("test", ".txt", '\n'), &to_file, &to_line)?;
    deliver(ctx.end_line(""), &to_file, &to_line)?;
    deliver(ctx.flush_all(), &to_file, &to_line)?;

    let out = test_output.lock().unwrap();
    assert_eq!(out.file_output, "hi there!\n");
    assert_eq!(out.line_output, "hi there!\n");

    Ok(())
}

#[test]
fn test_line_buffer() -> Result<()> {
    let test_output = reset_output();
    let to_file = move |_: &str, _: &str, _: &[u8]| -> Result<()> { Ok(()) };
    let to_line = line_sink(&test_output);

    let mut ctx = WriterContext::new("".into(), "".into(), false, 300, true, true).unwrap();

    deliver(ctx.write_string("test", ".txt", "hi there\n"), &to_file, &to_line)?;
    deliver(ctx.end_line(""), &to_file, &to_line)?;
    assert_eq!(test_output.lock().unwrap().line_output, "hi there\n");

    deliver(ctx.write_string("test", ".txt", "how are you today?\n"), &to_file, &to_line)?;
    deliver(ctx.end_line(""), &to_file, &to_line)?;
    assert_eq!(
        test_output.lock().unwrap().line_output,
        "how are you today?\n"
    );

    Ok(())
}
