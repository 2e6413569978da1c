//! Parsing the lines of a filing into records.

use vstd::prelude::*;
use vstd::string::StringExecFns;
use vstd::utf8::*;
use crate::csv_helper::format::csv_record;
use crate::csv_helper::{csv_first_record, parse_csv_text, SEPARATOR_CHAR};
use crate::encoding::{decode_line, decoded_text, has_separator};
use crate::errors::FecError;
use crate::fec::context::{pattern_matches, regex_match, FecContext, FecContextView};
use crate::text::{
    contains_text, lowercased, str_contains, str_starts_with, str_to_lowercase, str_trim,
    string_push, texts, trimmed,
};
use crate::writer::actions::{action_views, ActionView, WriterAction};
use crate::writer::model::WriterView;
use crate::writer::{WriterContext, CSV_EXTENSION};

verus! {

/// The pieces of `line` between the occurrences of `delimiter`: one more
/// piece than there are occurrences, in the order of the line.
pub open spec fn split_text(line: Seq<char>, delimiter: char) -> Seq<Seq<char>>
    decreases line.len(),
{
    if line.len() == 0 {
        seq![Seq::<char>::empty()]
    } else {
        let before = split_text(line.drop_last(), delimiter);
        if line.last() == delimiter {
            before.push(Seq::<char>::empty())
        } else {
            before.drop_last().push(before.last().push(line.last()))
        }
    }
}

/// `pieces` with `delimiter` between neighbours.
pub open spec fn joined_text(pieces: Seq<Seq<char>>, delimiter: char) -> Seq<char>
    decreases pieces.len(),
{
    if pieces.len() == 0 {
        Seq::<char>::empty()
    } else if pieces.len() == 1 {
        pieces[0]
    } else {
        joined_text(pieces.drop_last(), delimiter).push(delimiter) + pieces.last()
    }
}

/// The pieces of a line hold no delimiter, and with the delimiter put
/// back between them they are the line.
pub proof fn lemma_split_rejoins(line: Seq<char>, delimiter: char)
    ensures
        split_text(line, delimiter).len() > 0,
        forall|i: int|
            0 <= i < split_text(line, delimiter).len() ==> !(#[trigger] split_text(
                line,
                delimiter,
            )[i]).contains(delimiter),
        joined_text(split_text(line, delimiter), delimiter) == line,
    decreases line.len(),
{
    let pieces = split_text(line, delimiter);
    if line.len() > 0 {
        let init = line.drop_last();
        let before = split_text(init, delimiter);
        lemma_split_rejoins(init, delimiter);
        if line.last() == delimiter {
            assert(pieces.drop_last() =~= before);
            assert forall|i: int| 0 <= i < pieces.len() implies !(#[trigger] pieces[i]).contains(
                delimiter,
            ) by {
            }
        } else {
            assert(pieces.drop_last() =~= before.drop_last());
            assert forall|i: int| 0 <= i < pieces.len() implies !(#[trigger] pieces[i]).contains(
                delimiter,
            ) by {
            }
            if before.len() != 1 {
                assert(joined_text(pieces, delimiter) =~= joined_text(before, delimiter).push(
                    line.last(),
                ));
            }
        }
    }
}

/// Splits `line` at each occurrence of `delimiter`.
pub fn parse_with_delimiter(line: &str, delimiter: char) -> (fields: Vec<String>)
    ensures
        texts(fields@) == split_text(line@, delimiter),
{
    let mut fields: Vec<String> = Vec::new();
    let mut current = String::new();
    for c in it: line.chars()
        invariant
            it.seq() == line@,
            texts(fields@).push(current@) == split_text(line@.take(it.index() as int), delimiter),
    {
        let ghost seen = line@.take(it.index() as int);
        let ghost next = line@.take(it.index() + 1);
        let ghost text = current@;
        assert(next.drop_last() =~= seen);
        if c == delimiter {
            fields.push(current);
            current = String::new();
        } else {
            string_push(&mut current, c);
        }
    }
    assert(line@.take(line@.len() as int) =~= line@);
    fields.push(current);
    fields
}

/// What the first line of a filing is.
#[derive(Debug, Clone, Copy, PartialEq, Eq, Structural)]
pub enum HeaderKind {
    /// A header of the old form, which begins a comment.
    Legacy,
    /// A header that names the filing format.
    Modern,
    /// Any other line.
    Plain,
}

/// What a line after the first is.
#[derive(Debug, Clone, Copy, PartialEq, Eq, Structural)]
pub enum LineKind {
    /// The line that begins a block of free text.
    TextStart,
    /// A line inside a block of free text.
    Text,
    /// The line that ends a block of free text.
    TextEnd,
    /// A line that holds nothing but white space.
    Blank,
    /// A line that holds a record.
    Record,
}

/// What parsing one line did.
#[derive(Debug)]
pub struct LineOutcome {
    /// What the line is.
    pub kind: LineKind,
    /// The number of fields of its record; zero for any other line.
    pub num_fields: usize,
    /// Whether its record states the version of the filing.
    pub version_found: bool,
    /// What the writer asks its host to do for the record.
    pub actions: Vec<WriterAction>,
}

/// What parsing a filing did.
#[derive(Debug)]
pub struct FecRun {
    /// What the first line is; nothing when there is no line.
    pub header: Option<HeaderKind>,
    /// What parsing each later line did, in the order of the lines, up to
    /// the line that failed.
    pub outcomes: Vec<LineOutcome>,
    /// Why the parse ended early; nothing when it reached the last line.
    pub error: Option<FecError>,
}

/// What the error says when a filing has no line.
pub const NO_DATA: &'static str = "No data to parse.";

/// The name of the stream that records are written to.
pub const OUTPUT_STREAM: &'static str = "output";

/// What the first line of a filing is: a header of the old form when,
/// without the white space around it, it begins with `/*`; a header that
/// names the format when it holds `FEC`; any other line otherwise.
pub open spec fn header_kind(line: Seq<char>) -> HeaderKind {
    if "/*"@.is_prefix_of(trimmed(line)) {
        HeaderKind::Legacy
    } else if contains_text(trimmed(line), "FEC"@) {
        HeaderKind::Modern
    } else {
        HeaderKind::Plain
    }
}

/// Tells what the first line of a filing is.
pub fn parse_header(line: &str) -> (kind: HeaderKind)
    ensures
        kind == header_kind(line@),
{
    let trimmed_line = str_trim(line);
    if str_starts_with(trimmed_line, "/*") {
        HeaderKind::Legacy
    } else if str_contains(trimmed_line, "FEC") {
        HeaderKind::Modern
    } else {
        HeaderKind::Plain
    }
}

/// The fields of a line read as comma-separated values: those of its
/// first record, none when it holds no record, and nothing when the reader
/// rejects it.
pub open spec fn csv_fields_of(line: Seq<char>) -> Option<Seq<Seq<char>>> {
    match csv_first_record(line) {
        Ok(Some(record)) => Some(record),
        Ok(None) => Some(Seq::<Seq<char>>::empty()),
        Err(_) => None,
    }
}

/// Reads `line` as comma-separated values and returns the fields of its
/// first record; no field when it holds no record.
pub fn parse_csv_line(line: &str) -> (fields: Result<Vec<String>, FecError>)
    ensures
        match csv_fields_of(line@) {
            Some(record) => fields is Ok && texts(fields.unwrap()@) == record,
            None => fields is Err && fields.unwrap_err().is_parse_error_about(
                "CSV parse error: "@,
            ),
        },
{
    match parse_csv_text(line) {
        Ok(Some(record)) => Ok(record),
        Ok(None) => {
            let none: Vec<String> = Vec::new();
            Ok(none)
        },
        Err(error) => Err(error),
    }
}

/// The fields of a line that holds a record: the pieces between the
/// separators when the filing uses the separator, the fields of the line
/// read as comma-separated values otherwise.
pub open spec fn record_fields(use_ascii28: bool, line: Seq<char>) -> Option<Seq<Seq<char>>> {
    if use_ascii28 {
        Some(split_text(line, SEPARATOR_CHAR))
    } else {
        csv_fields_of(line)
    }
}

/// Whether a record states the version of the filing: its second field
/// holds the word `version`, in whatever case.
pub open spec fn states_version(fields: Seq<Seq<char>>) -> bool {
    fields.len() >= 2 && contains_text(lowercased(fields[1]), "version"@)
}

/// One step of a parse, as plain values.
pub struct StepView {
    /// The state of the parse after the line.
    pub context: FecContextView,
    /// The writer after the line.
    pub writer: WriterView,
    pub kind: LineKind,
    pub num_fields: nat,
    pub version_found: bool,
    pub actions: Seq<ActionView>,
}

/// A step that writes nothing.
pub open spec fn quiet_step(context: FecContextView, writer: WriterView, kind: LineKind) -> StepView {
    StepView {
        context,
        writer,
        kind,
        num_fields: 0,
        version_found: false,
        actions: Seq::<ActionView>::empty(),
    }
}

/// The step that a record makes: the record is written to the output
/// stream, and the state keeps the version when the record states it.
pub open spec fn record_step(context: FecContextView, writer: WriterView, fields: Seq<Seq<char>>) -> StepView {
    StepView {
        context: if states_version(fields) {
            FecContextView {
                version: Some(fields[1]),
                version_length: encode_utf8(fields[1]).len() as usize,
                ..context
            }
        } else {
            context
        },
        writer: writer.after_write_bytes(
            OUTPUT_STREAM@,
            CSV_EXTENSION@,
            encode_utf8(csv_record(fields)),
        ),
        kind: LineKind::Record,
        num_fields: fields.len(),
        version_found: states_version(fields),
        actions: writer.write_bytes_actions(
            OUTPUT_STREAM@,
            CSV_EXTENSION@,
            encode_utf8(csv_record(fields)),
        ),
    }
}

/// What one line does to a parse; nothing when the line cannot be parsed.
///
/// Inside a block of free text, the line that matches the end pattern
/// ends the block, and any other line joins the text of the block. Outside
/// of one, the line that matches the start pattern begins a block, a line
/// of white space does nothing, and any other line holds a record. The
/// patterns are held against the line without the white space around it.
pub open spec fn line_step(context: FecContextView, writer: WriterView, line: Seq<char>) -> Option<StepView> {
    if context.in_f99_text {
        match regex_match(context.f99_text_end, trimmed(line)) {
            None => None,
            Some(true) => Some(
                quiet_step(
                    FecContextView { in_f99_text: false, ..context },
                    writer,
                    LineKind::TextEnd,
                ),
            ),
            Some(false) => Some(
                quiet_step(
                    FecContextView { f99_text: context.f99_text + line, ..context },
                    writer,
                    LineKind::Text,
                ),
            ),
        }
    } else {
        match regex_match(context.f99_text_start, trimmed(line)) {
            None => None,
            Some(true) => Some(
                quiet_step(
                    FecContextView {
                        in_f99_text: true,
                        f99_text: Seq::<char>::empty(),
                        ..context
                    },
                    writer,
                    LineKind::TextStart,
                ),
            ),
            Some(false) => if trimmed(line).len() == 0 {
                Some(quiet_step(context, writer, LineKind::Blank))
            } else {
                match record_fields(context.use_ascii28, trimmed(line)) {
                    None => None,
                    Some(fields) => Some(record_step(context, writer, fields)),
                }
            },
        }
    }
}

/// Whether an outcome is that of a step.
pub open spec fn outcome_of(outcome: LineOutcome, step: StepView) -> bool {
    &&& outcome.kind == step.kind
    &&& outcome.num_fields == step.num_fields
    &&& outcome.version_found == step.version_found
    &&& action_views(outcome.actions@) == step.actions
}

/// An outcome that writes nothing.
fn quiet_outcome(kind: LineKind) -> (outcome: LineOutcome)
    ensures
        outcome.kind == kind,
        outcome.num_fields == 0,
        !outcome.version_found,
        action_views(outcome.actions@) == Seq::<ActionView>::empty(),
{
    let actions: Vec<WriterAction> = Vec::new();
    LineOutcome { kind, num_fields: 0, version_found: false, actions }
}

/// Parses one line after the first, as [`line_step`] says. A line that
/// cannot be parsed is a parsing error and changes nothing.
pub fn parse_line(ctx: &mut FecContext, line: &str, writer: &mut WriterContext) -> (parsed: Result<
    LineOutcome,
    FecError,
>)
    requires
        old(writer).wf(),
    ensures
        final(writer).wf(),
        match line_step(old(ctx)@, old(writer)@, line@) {
            Some(step) => parsed is Ok && outcome_of(parsed.unwrap(), step) && final(ctx)@
                == step.context && final(writer)@ == step.writer,
            None => parsed is Err && parsed.unwrap_err().is_parse_error() && final(ctx)@ == old(
                ctx,
            )@ && final(writer)@ == old(writer)@,
        },
{
    let trimmed_line = str_trim(line);
    if ctx.in_f99_text {
        let ends = pattern_matches(ctx.f99_text_end.as_str(), trimmed_line)?;
        if ends {
            ctx.in_f99_text = false;
            return Ok(quiet_outcome(LineKind::TextEnd));
        }
        ctx.f99_text.append(line);
        return Ok(quiet_outcome(LineKind::Text));
    }
    let starts = pattern_matches(ctx.f99_text_start.as_str(), trimmed_line)?;
    if starts {
        ctx.in_f99_text = true;
        ctx.f99_text = String::new();
        return Ok(quiet_outcome(LineKind::TextStart));
    }
    if trimmed_line.is_empty() {
        return Ok(quiet_outcome(LineKind::Blank));
    }
    let fields = if ctx.use_ascii28 {
        parse_with_delimiter(trimmed_line, SEPARATOR_CHAR)
    } else {
        parse_csv_line(trimmed_line)?
    };
    let mut version_found = false;
    if fields.len() >= 2 {
        let lowered = str_to_lowercase(fields[1].as_str());
        if str_contains(lowered.as_str(), "version") {
            ctx.version = Some(fields[1].clone());
            ctx.version_length = fields[1].as_str().len();
            version_found = true;
        }
    }
    proof {
        reveal_strlit("output");
    }
    let actions = writer.write_csv_record(OUTPUT_STREAM, &fields);
    Ok(LineOutcome { kind: LineKind::Record, num_fields: fields.len(), version_found, actions })
}

/// Parses the first line of a filing, the header: it decides, for the
/// whole filing, whether the separator stands between fields. A filing
/// without a first line is a parsing error.
pub fn parse_first_line(ctx: &mut FecContext, line: Option<&[u8]>) -> (parsed: Result<
    HeaderKind,
    FecError,
>)
    ensures
        match line {
            Some(bytes) => parsed == Ok::<HeaderKind, FecError>(
                header_kind(decoded_text(bytes@)),
            ) && final(ctx)@ == (FecContextView {
                use_ascii28: has_separator(bytes@),
                ..old(ctx)@
            }),
            None => parsed is Err && parsed.unwrap_err().is_parse_error_about(NO_DATA@)
                && final(ctx)@ == old(ctx)@,
        },
{
    match line {
        Some(bytes) => {
            let (decoded_header, header_has_separator) = decode_line(bytes);
            ctx.use_ascii28 = header_has_separator;
            Ok(parse_header(decoded_header.as_str()))
        },
        None => {
            let reason = String::from_str(NO_DATA);
            assert(reason@.subrange(0, NO_DATA@.len() as int) =~= NO_DATA@);
            Err(FecError::ParseError(reason))
        },
    }
}

/// Decodes one line after the first and parses it as [`parse_line`] does.
pub fn parse_data_line(ctx: &mut FecContext, line: &[u8], writer: &mut WriterContext) -> (parsed:
    Result<LineOutcome, FecError>)
    requires
        old(writer).wf(),
    ensures
        final(writer).wf(),
        match line_step(old(ctx)@, old(writer)@, decoded_text(line@)) {
            Some(step) => parsed is Ok && outcome_of(parsed.unwrap(), step) && final(ctx)@
                == step.context && final(writer)@ == step.writer,
            None => parsed is Err && parsed.unwrap_err().is_parse_error() && final(ctx)@ == old(
                ctx,
            )@ && final(writer)@ == old(writer)@,
        },
{
    let (decoded, _) = decode_line(line);
    parse_line(ctx, decoded.as_str(), writer)
}

/// The lines as plain values.
pub open spec fn byte_lines(lines: Seq<Vec<u8>>) -> Seq<Seq<u8>> {
    lines.map_values(|line: Vec<u8>| line@)
}

/// A parse of several lines, as plain values.
pub struct RunView {
    /// The state of the parse after the last line that was parsed.
    pub context: FecContextView,
    /// The writer after the last line that was parsed.
    pub writer: WriterView,
    /// The steps of the lines that were parsed, in order.
    pub steps: Seq<StepView>,
    /// Whether a line could not be parsed.
    pub failed: bool,
}

/// What the lines from `from` on do to a parse: each line is decoded and
/// makes its step, up to the first line that cannot be parsed.
pub open spec fn run_from(context: FecContextView, writer: WriterView, lines: Seq<Seq<u8>>, from: int) -> RunView
    decreases lines.len() - from,
{
    if from < 0 || from >= lines.len() {
        RunView { context, writer, steps: Seq::<StepView>::empty(), failed: false }
    } else {
        match line_step(context, writer, decoded_text(lines[from])) {
            None => RunView { context, writer, steps: Seq::<StepView>::empty(), failed: true },
            Some(step) => {
                let rest = run_from(step.context, step.writer, lines, from + 1);
                RunView { steps: seq![step] + rest.steps, ..rest }
            },
        }
    }
}

/// Whether the outcomes are those of the steps, one for one.
pub open spec fn outcomes_of(outcomes: Seq<LineOutcome>, steps: Seq<StepView>) -> bool {
    &&& outcomes.len() == steps.len()
    &&& forall|i: int| 0 <= i < outcomes.len() ==> outcome_of(#[trigger] outcomes[i], steps[i])
}

/// Parses a filing, given as its lines: the first as [`parse_first_line`]
/// does, each later one as [`parse_data_line`] does.
/// The parse ends early, with a parsing error, at the first line that
/// cannot be parsed, and right away when there is no line at all.
pub fn parse_fec(ctx: &mut FecContext, lines: &Vec<Vec<u8>>, writer: &mut WriterContext) -> (run: FecRun)
    requires
        old(writer).wf(),
    ensures
        final(writer).wf(),
        lines@.len() == 0 ==> run.header is None && run.outcomes@.len() == 0 && run.error is Some
            && run.error.unwrap().is_parse_error_about(NO_DATA@) && final(ctx)@ == old(ctx)@
            && final(writer)@ == old(writer)@,
        lines@.len() > 0 ==> ({
            let begun = FecContextView { use_ascii28: has_separator(lines@[0]@), ..old(ctx)@ };
            let whole = run_from(begun, old(writer)@, byte_lines(lines@), 1);
            &&& run.header == Some(header_kind(decoded_text(lines@[0]@)))
            &&& outcomes_of(run.outcomes@, whole.steps)
            &&& run.error is Some == whole.failed
            &&& run.error is Some ==> run.error.unwrap().is_parse_error()
            &&& final(ctx)@ == whole.context
            &&& final(writer)@ == whole.writer
        }),
{
    let mut outcomes: Vec<LineOutcome> = Vec::new();
    let first = if lines.len() == 0 {
        None
    } else {
        Some(lines[0].as_slice())
    };
    let header = match parse_first_line(ctx, first) {
        Ok(kind) => kind,
        Err(error) => {
            return FecRun { header: None, outcomes, error: Some(error) };
        },
    };
    let ghost begun = ctx@;
    let ghost start = writer@;
    let ghost all = byte_lines(lines@);
    let ghost mut done: Seq<StepView> = Seq::empty();
    let mut at: usize = 1;
    while at < lines.len()
        invariant
            1 <= at <= lines@.len(),
            all == byte_lines(lines@),
            begun == (FecContextView { use_ascii28: has_separator(lines@[0]@), ..old(ctx)@ }),
            start == old(writer)@,
            header == header_kind(decoded_text(lines@[0]@)),
            writer.wf(),
            outcomes_of(outcomes@, done),
            run_from(begun, start, all, 1) == (RunView {
                steps: done + run_from(ctx@, writer@, all, at as int).steps,
                ..run_from(ctx@, writer@, all, at as int)
            }),
        decreases lines@.len() - at,
    {
        let ghost before = run_from(ctx@, writer@, all, at as int);
        match parse_data_line(ctx, lines[at].as_slice(), writer) {
            Ok(outcome) => {
                let ghost step = before.steps[0];
                let ghost rest = run_from(ctx@, writer@, all, at + 1);
                outcomes.push(outcome);
                proof {
                    assert(done + before.steps =~= done.push(step) + rest.steps);
                    done = done.push(step);
                }
            },
            Err(error) => {
                return FecRun { header: Some(header), outcomes, error: Some(error) };
            },
        }
        at += 1;
    }
    FecRun { header: Some(header), outcomes, error: None }
}

} // verus!
