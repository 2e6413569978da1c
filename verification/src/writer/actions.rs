//! What the writer asks its host to do.
//!
//! The writer decides; it performs no input or output itself. Each
//! operation returns the actions that its host has to carry out, in order,
//! on the files and the callbacks that the host holds. A host that fails at
//! an action stops there; when it is the opening of a file that fails, it
//! tells the writer so, and the writer forgets the stream.

use vstd::prelude::*;

verus! {

/// One thing for the host to do.
#[derive(Debug)]
pub enum WriterAction {
    /// Open the file behind a stream that was just created: make sure that
    /// the directory `output_directory/filing_id` exists and open, for
    /// appending, the file in it that is named `file_stem` with the
    /// extension `file_extension`.
    OpenFile {
        filename: String,
        extension: String,
        output_directory: String,
        filing_id: String,
        file_stem: String,
        file_extension: String,
    },
    /// Deliver a chunk of a stream: first to the byte sink if `to_sink`,
    /// then to the stream's file if `to_file`.
    Chunk { filename: String, extension: String, data: Vec<u8>, to_sink: bool, to_file: bool },
    /// Deliver a completed line to the line sink.
    Line { filename: String, line: String, types: String },
    /// Make the stream's file flush what it was given.
    FlushFile { filename: String, extension: String },
}

/// A [`WriterAction`] as plain values.
pub enum ActionView {
    OpenFile {
        filename: Seq<char>,
        extension: Seq<char>,
        output_directory: Seq<char>,
        filing_id: Seq<char>,
        file_stem: Seq<char>,
        file_extension: Seq<char>,
    },
    Chunk { filename: Seq<char>, extension: Seq<char>, data: Seq<u8>, to_sink: bool, to_file: bool },
    Line { filename: Seq<char>, line: Seq<char>, types: Seq<char> },
    FlushFile { filename: Seq<char>, extension: Seq<char> },
}

impl View for WriterAction {
    type V = ActionView;

    open spec fn view(&self) -> ActionView {
        match self {
            WriterAction::OpenFile {
                filename,
                extension,
                output_directory,
                filing_id,
                file_stem,
                file_extension,
            } => ActionView::OpenFile {
                filename: filename@,
                extension: extension@,
                output_directory: output_directory@,
                filing_id: filing_id@,
                file_stem: file_stem@,
                file_extension: file_extension@,
            },
            WriterAction::Chunk { filename, extension, data, to_sink, to_file } => ActionView::Chunk {
                filename: filename@,
                extension: extension@,
                data: data@,
                to_sink: *to_sink,
                to_file: *to_file,
            },
            WriterAction::Line { filename, line, types } => ActionView::Line {
                filename: filename@,
                line: line@,
                types: types@,
            },
            WriterAction::FlushFile { filename, extension } => ActionView::FlushFile {
                filename: filename@,
                extension: extension@,
            },
        }
    }
}

/// The actions of `actions` as plain values, in the same order.
pub open spec fn action_views(actions: Seq<WriterAction>) -> Seq<ActionView> {
    actions.map_values(|a: WriterAction| a@)
}

/// The bytes that `actions` deliver to the stream with the given name and
/// extension, in the order of delivery.
pub open spec fn delivered(actions: Seq<ActionView>, filename: Seq<char>, extension: Seq<char>) -> Seq<u8>
    decreases actions.len(),
{
    if actions.len() == 0 {
        Seq::<u8>::empty()
    } else {
        delivered(actions.drop_last(), filename, extension) + chunk_for(
            actions.last(),
            filename,
            extension,
        )
    }
}

/// The bytes that one action delivers to the stream with the given name
/// and extension: its data if it is a chunk of that stream, nothing
/// otherwise.
pub open spec fn chunk_for(action: ActionView, filename: Seq<char>, extension: Seq<char>) -> Seq<u8> {
    match action {
        ActionView::Chunk { filename: f, extension: e, data, .. } => if f == filename && e
            == extension {
            data
        } else {
            Seq::<u8>::empty()
        },
        _ => Seq::<u8>::empty(),
    }
}

} // verus!
