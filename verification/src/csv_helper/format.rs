//! The form of one record as comma-separated values.

use vstd::prelude::*;
use crate::text::replaced;

verus! {

/// True for the characters that a field cannot hold without quotes: the
/// comma, the double quote, the carriage return and the line feed.
pub open spec fn is_special(c: char) -> bool {
    c == ',' || c == '"' || c == '\r' || c == '\n'
}

/// True when `field` has to be written in quotes.
pub open spec fn needs_quotes(field: Seq<char>) -> bool {
    exists|i: int| 0 <= i < field.len() && is_special(field[i])
}

/// `field` between double quotes, with each double quote inside doubled.
pub open spec fn quoted(field: Seq<char>) -> Seq<char> {
    seq!['"'] + replaced(field, '"', seq!['"', '"']) + seq!['"']
}

/// One field as it stands in a record: in quotes when it needs them, as it
/// is otherwise.
pub open spec fn csv_field(field: Seq<char>) -> Seq<char> {
    if needs_quotes(field) {
        quoted(field)
    } else {
        field
    }
}

/// The fields as they stand in a record, with a comma between neighbours.
pub open spec fn csv_fields(fields: Seq<Seq<char>>) -> Seq<char>
    decreases fields.len(),
{
    if fields.len() == 0 {
        Seq::<char>::empty()
    } else if fields.len() == 1 {
        csv_field(fields[0])
    } else {
        csv_fields(fields.drop_last()) + seq![','] + csv_field(fields.last())
    }
}

/// One record: its fields, then a line feed. A record that would be empty,
/// because it has no field or only one empty field, is written as a pair
/// of double quotes.
pub open spec fn csv_record(fields: Seq<Seq<char>>) -> Seq<char> {
    let row = csv_fields(fields);
    if row.len() == 0 {
        seq!['"', '"', '\n']
    } else {
        row + seq!['\n']
    }
}

/// True when `field` holds a comma or a double quote.
pub open spec fn has_comma_or_quote(field: Seq<char>) -> bool {
    exists|i: int| 0 <= i < field.len() && (field[i] == ',' || field[i] == '"')
}

/// `field` escaped by hand: between double quotes and with its double
/// quotes doubled when it holds a comma or a double quote, unchanged
/// otherwise.
pub open spec fn escaped(field: Seq<char>) -> Seq<char> {
    if has_comma_or_quote(field) {
        quoted(field)
    } else {
        field
    }
}

/// A field that holds a comma or a double quote stands in a record
/// between double quotes, with its double quotes doubled. A field that
/// holds neither, and no line break, stands in a record as it is.
pub proof fn lemma_field_escaping(field: Seq<char>)
    ensures
        has_comma_or_quote(field) ==> csv_field(field) == quoted(field),
        !has_comma_or_quote(field) && !field.contains('\r') && !field.contains('\n') ==> csv_field(
            field,
        ) == field,
        has_comma_or_quote(field) ==> escaped(field) == csv_field(field),
        !has_comma_or_quote(field) ==> escaped(field) == field,
{
}

/// A record of one field that is not empty and holds no line break is the
/// field escaped by hand, and a line feed.
pub proof fn lemma_record_of_escaped_field(field: Seq<char>)
    requires
        field.len() > 0,
        !field.contains('\r'),
        !field.contains('\n'),
    ensures
        csv_record(seq![field]) == escaped(field).push('\n'),
{
    lemma_field_escaping(field);
    assert(csv_fields(seq![field]) == csv_field(field));
    assert(csv_record(seq![field]) =~= escaped(field).push('\n'));
}

/// Where a reader stands within a record.
pub enum SplitMode {
    /// At the beginning of a field.
    FieldStart,
    /// Inside a field that did not begin with a double quote.
    Plain,
    /// Inside a field that began with a double quote.
    Quoted,
    /// Behind a double quote inside such a field: the quote ends the field
    /// unless a second one follows.
    QuoteSeen,
}

/// What a reader has made of the part of a record that it has read.
pub struct SplitState {
    /// The fields that are complete.
    pub fields: Seq<Seq<char>>,
    /// The field that is being read.
    pub current: Seq<char>,
    pub mode: SplitMode,
}

/// What reading one more character makes of a state, by the usual rules:
/// a comma outside quotes ends a field; a double quote at the beginning of
/// a field opens quotes; inside quotes two double quotes stand for one and
/// a single one closes the quotes.
pub open spec fn split_step(state: SplitState, c: char) -> SplitState {
    match state.mode {
        SplitMode::FieldStart => if c == '"' {
            SplitState { mode: SplitMode::Quoted, ..state }
        } else if c == ',' {
            SplitState {
                fields: state.fields.push(state.current),
                current: Seq::<char>::empty(),
                mode: SplitMode::FieldStart,
            }
        } else {
            SplitState { current: state.current.push(c), mode: SplitMode::Plain, ..state }
        },
        SplitMode::Plain => if c == ',' {
            SplitState {
                fields: state.fields.push(state.current),
                current: Seq::<char>::empty(),
                mode: SplitMode::FieldStart,
            }
        } else {
            SplitState { current: state.current.push(c), ..state }
        },
        SplitMode::Quoted => if c == '"' {
            SplitState { mode: SplitMode::QuoteSeen, ..state }
        } else {
            SplitState { current: state.current.push(c), ..state }
        },
        SplitMode::QuoteSeen => if c == '"' {
            SplitState { current: state.current.push(c), mode: SplitMode::Quoted, ..state }
        } else if c == ',' {
            SplitState {
                fields: state.fields.push(state.current),
                current: Seq::<char>::empty(),
                mode: SplitMode::FieldStart,
            }
        } else {
            SplitState { current: state.current.push(c), mode: SplitMode::Plain, ..state }
        },
    }
}

/// What reading `text` makes of a state.
pub open spec fn split_run(state: SplitState, text: Seq<char>) -> SplitState
    decreases text.len(),
{
    if text.len() == 0 {
        state
    } else {
        split_step(split_run(state, text.drop_last()), text.last())
    }
}

/// The fields that a reader finds in a record that is given without its
/// line feed.
pub open spec fn split_record(row: Seq<char>) -> Seq<Seq<char>> {
    let end = split_run(
        SplitState {
            fields: Seq::<Seq<char>>::empty(),
            current: Seq::<char>::empty(),
            mode: SplitMode::FieldStart,
        },
        row,
    );
    end.fields.push(end.current)
}

/// A record without its line feed.
pub open spec fn csv_row(fields: Seq<Seq<char>>) -> Seq<char> {
    csv_record(fields).drop_last()
}

/// Reading a text in two parts is reading it at once.
pub proof fn lemma_split_run_concat(state: SplitState, a: Seq<char>, b: Seq<char>)
    ensures
        split_run(state, a + b) == split_run(split_run(state, a), b),
    decreases b.len(),
{
    if b.len() > 0 {
        lemma_split_run_concat(state, a, b.drop_last());
        assert((a + b).drop_last() =~= a + b.drop_last());
    }
}

/// Reading one character.
proof fn lemma_split_run_one(state: SplitState, c: char)
    ensures
        split_run(state, seq![c]) == split_step(state, c),
{
    assert(split_run(state, seq![c].drop_last()) == state);
}

/// Outside quotes, a text without comma and double quote joins the field
/// that is being read.
proof fn lemma_split_plain(state: SplitState, text: Seq<char>)
    requires
        state.mode is FieldStart || state.mode is Plain,
        forall|i: int| 0 <= i < text.len() ==> text[i] != ',' && text[i] != '"',
    ensures
        split_run(state, text) == (SplitState {
            fields: state.fields,
            current: state.current + text,
            mode: if text.len() == 0 {
                state.mode
            } else {
                SplitMode::Plain
            },
        }),
    decreases text.len(),
{
    if text.len() > 0 {
        lemma_split_plain(state, text.drop_last());
        assert((state.current + text.drop_last()).push(text.last()) =~= state.current + text);
    }
}

/// Inside quotes, a text with its double quotes doubled joins the field
/// that is being read as the text itself.
proof fn lemma_split_doubled(state: SplitState, text: Seq<char>)
    requires
        state.mode is Quoted,
    ensures
        split_run(state, replaced(text, '"', seq!['"', '"'])) == (SplitState {
            fields: state.fields,
            current: state.current + text,
            mode: SplitMode::Quoted,
        }),
    decreases text.len(),
{
    if text.len() > 0 {
        let init = text.drop_last();
        let read = split_run(state, replaced(init, '"', seq!['"', '"']));
        lemma_split_doubled(state, init);
        assert((state.current + init).push(text.last()) =~= state.current + text);
        if text.last() == '"' {
            lemma_split_run_concat(state, replaced(init, '"', seq!['"', '"']), seq!['"', '"']);
            let pair = seq!['"', '"'];
            assert(pair.drop_last() =~= seq!['"']);
            lemma_split_run_one(read, '"');
        } else {
            assert(replaced(text, '"', seq!['"', '"']).drop_last() =~= replaced(
                init,
                '"',
                seq!['"', '"'],
            ));
        }
    }
}

/// True for the modes in which a field can end.
pub open spec fn can_end(mode: SplitMode) -> bool {
    mode is FieldStart || mode is Plain || mode is QuoteSeen
}

/// From the beginning of a field, reading a field as it stands in a
/// record reads the field itself, and the field can end there.
proof fn lemma_split_field(state: SplitState, field: Seq<char>)
    requires
        state.mode is FieldStart,
        state.current.len() == 0,
    ensures
        split_run(state, csv_field(field)).fields == state.fields,
        split_run(state, csv_field(field)).current == field,
        can_end(split_run(state, csv_field(field)).mode),
{
    if needs_quotes(field) {
        let open = seq!['"'];
        let body = replaced(field, '"', seq!['"', '"']);
        lemma_split_run_concat(state, open + body, open);
        lemma_split_run_concat(state, open, body);
        lemma_split_run_one(state, '"');
        let opened = split_step(state, '"');
        lemma_split_doubled(opened, field);
        let filled = split_run(opened, body);
        lemma_split_run_one(filled, '"');
    } else {
        assert forall|i: int| 0 <= i < field.len() implies field[i] != ',' && field[i] != '"' by {
        }
        lemma_split_plain(state, field);
    }
}

/// Reading the fields of a record, as they stand in it, reads all fields
/// but the last to their end and the last field up to its end.
proof fn lemma_split_fields(fields: Seq<Seq<char>>)
    requires
        fields.len() > 0,
    ensures
        split_run(
            SplitState {
                fields: Seq::<Seq<char>>::empty(),
                current: Seq::<char>::empty(),
                mode: SplitMode::FieldStart,
            },
            csv_fields(fields),
        ).fields == fields.drop_last(),
        split_run(
            SplitState {
                fields: Seq::<Seq<char>>::empty(),
                current: Seq::<char>::empty(),
                mode: SplitMode::FieldStart,
            },
            csv_fields(fields),
        ).current == fields.last(),
        can_end(
            split_run(
                SplitState {
                    fields: Seq::<Seq<char>>::empty(),
                    current: Seq::<char>::empty(),
                    mode: SplitMode::FieldStart,
                },
                csv_fields(fields),
            ).mode,
        ),
    decreases fields.len(),
{
    let start = SplitState {
        fields: Seq::<Seq<char>>::empty(),
        current: Seq::<char>::empty(),
        mode: SplitMode::FieldStart,
    };
    if fields.len() == 1 {
        lemma_split_field(start, fields[0]);
    } else {
        let init = fields.drop_last();
        lemma_split_fields(init);
        let before = csv_fields(init);
        let read = split_run(start, before);
        lemma_split_run_concat(start, before + seq![','], csv_field(fields.last()));
        lemma_split_run_concat(start, before, seq![',']);
        lemma_split_run_one(read, ',');
        let next = split_step(read, ',');
        lemma_split_field(next, fields.last());
    }
}

/// A record can be read back: a reader that goes by the usual rules finds
/// in a written record, without its line feed, exactly the fields that
/// were written. A record without any field reads back as one empty field.
pub proof fn lemma_record_round_trip(fields: Seq<Seq<char>>)
    ensures
        csv_record(fields) == csv_row(fields).push('\n'),
        fields.len() > 0 ==> split_record(csv_row(fields)) == fields,
        fields.len() == 0 ==> split_record(csv_row(fields)) == seq![Seq::<char>::empty()],
{
    let start = SplitState {
        fields: Seq::<Seq<char>>::empty(),
        current: Seq::<char>::empty(),
        mode: SplitMode::FieldStart,
    };
    let row = csv_fields(fields);
    if row.len() == 0 {
        let pair = seq!['"', '"'];
        assert(csv_row(fields) =~= pair);
        assert(pair.drop_last() =~= seq!['"']);
        lemma_split_run_one(start, '"');
        if fields.len() == 1 {
            assert(fields[0] =~= Seq::<char>::empty());
        }
    } else {
        assert(csv_row(fields) =~= row);
        lemma_split_fields(fields);
    }
}

} // verus!
