//! The buffered writer: named output streams, each with its own buffer.
//!
//! A [`WriterContext`] takes text, characters and records for any number of
//! streams, each named by a file name and an extension. It keeps what it is
//! given in the stream's buffer and lets it leave in chunks of the buffer's
//! capacity, the oldest bytes first, when the buffer overflows or is
//! flushed. While in local mode it captures what it is given as one text
//! and touches no stream.

pub mod actions;
pub mod buffer;
pub mod chunks;
pub mod laws;
pub mod model;

use vstd::prelude::*;
use vstd::string::StringExecFns;
use vstd::slice::slice_to_vec;
use vstd::utf8::*;
use crate::csv_helper::csv_encode_record;
use crate::csv_helper::format::csv_record;
use crate::text::{
    str_replace, str_trim_start_matches, string_from_utf8_lossy, string_push, texts,
};
use crate::writer::chunks::{flushed_chunks, kept_bytes};
use crate::writer::actions::{action_views, ActionView, WriterAction};
use crate::writer::buffer::BufferFile;
use crate::writer::model::{
    lemma_first_match, lemma_first_match_at, sync_actions_from, StreamView, WriterView,
};

verus! {

/// The extension of the streams that hold records.
pub const CSV_EXTENSION: &'static str = ".csv";

/// Whether two texts are the same, told by their bytes.
fn same_text(a: &str, b: &str) -> (same: bool)
    ensures
        same == (a@ == b@),
{
    let x = a.as_bytes();
    let y = b.as_bytes();
    proof {
        encode_utf8_decode_utf8(a@);
        encode_utf8_decode_utf8(b@);
    }
    if x.len() != y.len() {
        return false;
    }
    let mut i: usize = 0;
    while i < x.len()
        invariant
            i <= x@.len(),
            x@.len() == y@.len(),
            x@ == encode_utf8(a@),
            y@ == encode_utf8(b@),
            forall|j: int| 0 <= j < i ==> x@[j] == y@[j],
        decreases x@.len() - i,
    {
        if x[i] != y[i] {
            return false;
        }
        i += 1;
    }
    assert(x@ =~= y@);
    true
}

/// Why a writer could not be made.
#[derive(Debug, PartialEq, Eq, Structural)]
pub enum WriterError {
    /// The buffer size was zero: no write could ever fit.
    ZeroBufferSize,
}

/// One stream: its name, its buffer and what is known of its file.
struct FileEntry {
    filename: String,
    extension: String,
    buffer_file: BufferFile,
    on_disk: bool,
    unsynced: bool,
    opened_after: Option<usize>,
}

/// An optional position as a plain value.
pub open spec fn option_position(at: Option<usize>) -> Option<int> {
    match at {
        Some(i) => Some(i as int),
        None => None,
    }
}

impl View for FileEntry {
    type V = StreamView;

    closed spec fn view(&self) -> StreamView {
        StreamView {
            filename: self.filename@,
            extension: self.extension@,
            capacity: self.buffer_file.spec_capacity(),
            buffered: self.buffer_file@,
            on_disk: self.on_disk,
            unsynced: self.unsynced,
            opened_after: option_position(self.opened_after),
        }
    }
}

impl FileEntry {
    fn new(
        filename: String,
        extension: String,
        buffer_capacity: usize,
        on_disk: bool,
        opened_after: Option<usize>,
    ) -> (entry: Self)
        ensures
            entry@ == StreamView::fresh(
                filename@,
                extension@,
                buffer_capacity as nat,
                on_disk,
                option_position(opened_after),
            ),
            entry.buffer_file.wf(),
    {
        FileEntry {
            filename,
            extension,
            buffer_file: BufferFile::new(buffer_capacity),
            on_disk,
            unsynced: on_disk,
            opened_after,
        }
    }
}

/// The writer.
pub struct WriterContext {
    /// The directory under which output files go.
    pub output_directory: String,
    /// The filing that is being converted; it names the directory of the
    /// output files.
    pub filing_id: String,
    /// Whether new streams get a file.
    pub write_to_disk: bool,
    buffer_size: usize,
    /// The streams, in the order of their creation. They are few, one for
    /// each kind of form in a filing, and are searched in order.
    open_files: Vec<FileEntry>,
    /// Where the most recently used stream stands.
    last_file_key: Option<usize>,
    local_mode: bool,
    local_buffer: String,
    line_sink: bool,
    custom_line_buffer: String,
    byte_sink: bool,
}

impl View for WriterContext {
    type V = WriterView;

    closed spec fn view(&self) -> WriterView {
        WriterView {
            output_directory: self.output_directory@,
            filing_id: self.filing_id@,
            write_to_disk: self.write_to_disk,
            buffer_size: self.buffer_size as nat,
            byte_sink: self.byte_sink,
            line_sink: self.line_sink,
            streams: self.open_files@.map_values(|e: FileEntry| e@),
            last: option_position(self.last_file_key),
            local_mode: self.local_mode,
            local_capture: self.local_buffer@,
            pending_line: self.custom_line_buffer@,
        }
    }
}

impl WriterContext {
    /// What holds of every writer that [`WriterContext::new`] made,
    /// whatever was done with it since.
    pub closed spec fn wf(&self) -> bool {
        &&& self@.wf()
        &&& forall|i: int| 0 <= i < self.open_files@.len() ==> (#[trigger] self.open_files@[i]).buffer_file.wf()
    }

    /// A well-formed writer is well formed as plain values.
    pub proof fn lemma_wf_view(&self)
        requires
            self.wf(),
        ensures
            self@.wf(),
    {
    }

    /// A writer without streams. `byte_sink` and `line_sink` say whether
    /// the host has a byte sink and a line sink. A buffer size of zero is
    /// refused.
    pub fn new(
        output_directory: String,
        filing_id: String,
        write_to_disk: bool,
        buffer_size: usize,
        byte_sink: bool,
        line_sink: bool,
    ) -> (made: Result<Self, WriterError>)
        ensures
            made is Ok <==> buffer_size > 0,
            made is Err ==> made == Err::<Self, WriterError>(WriterError::ZeroBufferSize),
            made is Ok ==> made.unwrap().wf() && made.unwrap()@ == (WriterView {
                output_directory: output_directory@,
                filing_id: filing_id@,
                write_to_disk,
                buffer_size: buffer_size as nat,
                byte_sink: byte_sink,
                line_sink: line_sink,
                streams: Seq::<StreamView>::empty(),
                last: None,
                local_mode: false,
                local_capture: Seq::<char>::empty(),
                pending_line: Seq::<char>::empty(),
            }),
    {
        if buffer_size == 0 {
            return Err(WriterError::ZeroBufferSize);
        }
        let made = WriterContext {
            output_directory,
            filing_id,
            write_to_disk,
            buffer_size,
            open_files: Vec::new(),
            last_file_key: None,
            local_mode: false,
            local_buffer: String::new(),
            line_sink,
            custom_line_buffer: String::new(),
            byte_sink,
        };
        assert(made@.streams =~= Seq::<StreamView>::empty());
        Ok(made)
    }

    /// Whether the stream at `at` has the given name and extension.
    fn entry_is(&self, at: usize, filename: &str, extension: &str) -> (same: bool)
        requires
            at < self.open_files@.len(),
        ensures
            same == self@.streams[at as int].is(filename@, extension@),
    {
        same_text(self.open_files[at].filename.as_str(), filename) && same_text(
            self.open_files[at].extension.as_str(),
            extension,
        )
    }

    /// Looks up the stream with the given name and extension, and creates
    /// it when it does not exist. Returns where the stream stands, and the
    /// action that opens its file when one is to be opened.
    pub fn get_file_entry(&mut self, filename: &str, extension: &str) -> (found: (
        usize,
        Vec<WriterAction>,
    ))
        requires
            old(self).wf(),
        ensures
            final(self).wf(),
            final(self)@ == old(self)@.resolved(filename@, extension@),
            found.0 == old(self)@.position(filename@, extension@),
            found.0 < final(self)@.streams.len(),
            action_views(found.1@) == old(self)@.resolve_actions(filename@, extension@),
    {
        proof {
            lemma_first_match(self@.streams, filename@, extension@);
        }
        if let Some(at) = self.last_file_key {
            if self.entry_is(at, filename, extension) {
                let none: Vec<WriterAction> = Vec::new();
                return (at, none);
            }
        }
        let mut at: usize = 0;
        while at < self.open_files.len()
            invariant
                *self == *old(self),
                self.wf(),
                at <= self.open_files@.len(),
                forall|j: int| 0 <= j < at ==> !(#[trigger] self@.streams[j]).is(filename@, extension@),
            decreases self.open_files@.len() - at,
        {
            if self.entry_is(at, filename, extension) {
                proof {
                    lemma_first_match_at(self@.streams, filename@, extension@, at as int);
                }
                self.last_file_key = Some(at);
                let none: Vec<WriterAction> = Vec::new();
                return (at, none);
            }
            at += 1;
        }
        proof {
            lemma_first_match_at(self@.streams, filename@, extension@, at as int);
        }
        let mut actions: Vec<WriterAction> = Vec::new();
        if self.write_to_disk {
            proof {
                reveal_strlit("-");
                assert("-"@ =~= seq!['-']);
            }
            actions.push(
                WriterAction::OpenFile {
                    filename: filename.to_owned(),
                    extension: extension.to_owned(),
                    output_directory: self.output_directory.clone(),
                    filing_id: self.filing_id.clone(),
                    file_stem: str_replace(filename, '/', "-"),
                    file_extension: str_trim_start_matches(extension, '.').to_owned(),
                },
            );
        }
        let entry = FileEntry::new(
            filename.to_owned(),
            extension.to_owned(),
            self.buffer_size,
            self.write_to_disk,
            self.last_file_key,
        );
        self.open_files.push(entry);
        self.last_file_key = Some(at);
        proof {
            assert(self@.streams =~= old(self)@.streams.push(entry@));
            assert forall|i: int, j: int| 0 <= i < j < self@.streams.len() implies !(
            #[trigger] self@.streams[i]).is(
                (#[trigger] self@.streams[j]).filename,
                self@.streams[j].extension,
            ) by {
                if j >= old(self)@.streams.len() {
                    assert(self@.streams[i] == old(self)@.streams[i]);
                }
            }
        }
        (at, actions)
    }

    /// Whether the writer is in local mode.
    pub fn is_local(&self) -> (local: bool)
        ensures
            local == self@.local_mode,
    {
        self.local_mode
    }

    /// Gets the stream ready that a write of `length` bytes goes to, so
    /// that its file can be opened before anything is written: looks the
    /// stream up as the write would, and does nothing where the write
    /// would look up no stream, in local mode and for an empty write.
    pub fn open_stream(&mut self, filename: &str, extension: &str, length: usize) -> (actions: Vec<
        WriterAction,
    >)
        requires
            old(self).wf(),
        ensures
            final(self).wf(),
            old(self)@.local_mode || length == 0 ==> final(self)@ == old(self)@ && action_views(
                actions@,
            ) == Seq::<ActionView>::empty(),
            !old(self)@.local_mode && length > 0 ==> final(self)@ == old(self)@.resolved(
                filename@,
                extension@,
            ) && action_views(actions@) == old(self)@.resolve_actions(filename@, extension@),
    {
        if self.local_mode || length == 0 {
            let none: Vec<WriterAction> = Vec::new();
            assert(action_views(none@) =~= Seq::<ActionView>::empty());
            return none;
        }
        let (_, actions) = self.get_file_entry(filename, extension);
        actions
    }

    /// Takes the host's report that it could not open the file of the
    /// stream with the given name and extension. To be called at once
    /// when an [`WriterAction::OpenFile`] fails: the stream is then the
    /// newest, and the writer forgets it, with what was written to it, so
    /// that the next write to it asks for the file again.
    pub fn open_failed(&mut self, filename: &str, extension: &str)
        requires
            old(self).wf(),
        ensures
            final(self).wf(),
            final(self)@ == old(self)@.after_open_failed(filename@, extension@),
    {
        let count = self.open_files.len();
        if count > 0 && self.entry_is(count - 1, filename, extension) {
            let ghost before = self.open_files@;
            let entry = self.open_files.pop();
            self.last_file_key = entry.unwrap().opened_after;
            proof {
                assert(self.open_files@ =~= before.drop_last());
                assert(self@.streams =~= old(self)@.streams.drop_last());
                assert forall|i: int| 0 <= i < self@.streams.len() implies self@.streams[i]
                    == old(self)@.streams[i] by {
                }
            }
        }
    }

    /// Empties the buffer of the stream at `at`, which holds something,
    /// and returns the action that delivers what it held.
    fn flush_entry(&mut self, at: usize) -> (chunk: WriterAction)
        requires
            old(self).wf(),
            at < old(self)@.streams.len(),
            old(self)@.streams[at as int].buffered.len() > 0,
        ensures
            final(self).wf(),
            final(self)@ == old(self)@.with_stream(
                at as int,
                old(self)@.streams[at as int].after_flush(),
            ),
            chunk@ == old(self)@.streams[at as int].chunk(
                old(self)@.streams[at as int].buffered,
                old(self)@.byte_sink,
            ),
    {
        let data = self.open_files[at].buffer_file.take();
        let to_file = self.open_files[at].on_disk;
        if to_file {
            self.open_files[at].unsynced = true;
        }
        let chunk = WriterAction::Chunk {
            filename: self.open_files[at].filename.clone(),
            extension: self.open_files[at].extension.clone(),
            data,
            to_sink: self.byte_sink,
            to_file,
        };
        proof {
            assert(self@.streams =~= old(self)@.streams.update(
                at as int,
                old(self)@.streams[at as int].after_flush(),
            ));
        }
        chunk
    }

    /// Flushes the buffer of the stream with the given name and
    /// extension: what it holds leaves as one chunk, and nothing leaves
    /// when it is empty.
    pub fn flush_buffer(&mut self, filename: &str, extension: &str) -> (actions: Vec<WriterAction>)
        requires
            old(self).wf(),
        ensures
            final(self).wf(),
            final(self)@ == old(self)@.after_flush_buffer(filename@, extension@),
            action_views(actions@) == old(self)@.flush_buffer_actions(filename@, extension@),
    {
        let (at, mut actions) = self.get_file_entry(filename, extension);
        if self.open_files[at].buffer_file.is_empty() {
            proof {
                let ready = old(self)@.resolved(filename@, extension@);
                assert(ready.streams[at as int].buffered =~= Seq::<u8>::empty());
                assert(ready.streams.update(at as int, ready.streams[at as int]) =~= ready.streams);
            }
            return actions;
        }
        let chunk = self.flush_entry(at);
        actions.push(chunk);
        actions
    }

    /// Writes `data` to the stream with the given name and extension.
    /// The bytes join the stream's buffer; whenever the buffer is full and
    /// more is waiting, what it holds leaves as one chunk. In local mode
    /// the bytes are captured as text instead, and no stream is looked up.
    pub fn write_bytes(&mut self, filename: &str, extension: &str, data: &[u8]) -> (actions: Vec<
        WriterAction,
    >)
        requires
            old(self).wf(),
        ensures
            final(self).wf(),
            final(self)@ == old(self)@.after_write_bytes(filename@, extension@, data@),
            action_views(actions@) == old(self)@.write_bytes_actions(filename@, extension@, data@),
            old(self)@.local_mode && valid_utf8(data@) ==> final(self)@.local_capture == old(
                self,
            )@.local_capture + decode_utf8(data@),
    {
        if self.local_mode {
            let text = string_from_utf8_lossy(data);
            self.local_buffer.append(text.as_str());
            let none: Vec<WriterAction> = Vec::new();
            return none;
        }
        if data.len() == 0 {
            let none: Vec<WriterAction> = Vec::new();
            assert(action_views(none@) =~= Seq::<ActionView>::empty());
            return none;
        }
        let (at, mut actions) = self.get_file_entry(filename, extension);
        let ghost ready = self@;
        let ghost start = ready.streams[at as int];
        let ghost total = start.buffered + data@;
        let ghost opened = action_views(actions@);
        let ghost mut emitted: Seq<Seq<u8>> = Seq::empty();
        let mut overflow = slice_to_vec(data);
        proof {
            assert(ready.streams.update(at as int, start) =~= ready.streams);
        }
        loop
            invariant_except_break
                overflow@.len() > 0,
                flushed_chunks(start.capacity, total) == emitted + flushed_chunks(
                    start.capacity,
                    self@.streams[at as int].buffered + overflow@,
                ),
                kept_bytes(start.capacity, total) == kept_bytes(
                    start.capacity,
                    self@.streams[at as int].buffered + overflow@,
                ),
            invariant
                self.wf(),
                at < self@.streams.len(),
                at < ready.streams.len(),
                start.capacity > 0,
                start == ready.streams[at as int],
                self@ == ready.with_stream(
                    at as int,
                    StreamView {
                        buffered: self@.streams[at as int].buffered,
                        unsynced: start.unsynced || (start.on_disk && emitted.len() > 0),
                        ..start
                    },
                ),
                action_views(actions@) == opened + start.chunk_actions(emitted, ready.byte_sink),
            ensures
                flushed_chunks(start.capacity, total) == emitted,
                kept_bytes(start.capacity, total) == self@.streams[at as int].buffered,
            decreases self@.streams[at as int].buffered.len() + overflow@.len(),
        {
            let ghost before = self@;
            let ghost held = self@.streams[at as int].buffered;
            let leftover = self.open_files[at].buffer_file.write_bytes(overflow.as_slice());
            let ghost filled = self@.streams[at as int].buffered;
            proof {
                assert(self@.streams =~= before.streams.update(
                    at as int,
                    StreamView { buffered: filled, ..before.streams[at as int] },
                ));
                assert(self@.streams =~= ready.streams.update(
                    at as int,
                    StreamView {
                        buffered: filled,
                        unsynced: start.unsynced || (start.on_disk && emitted.len() > 0),
                        ..start
                    },
                ));
            }
            if leftover.len() == 0 {
                break;
            }
            let chunk = self.flush_entry(at);
            let ghost sent = action_views(actions@);
            actions.push(chunk);
            proof {
                let waiting = held + overflow@;
                let cap = start.capacity as int;
                assert(waiting.take(cap) =~= filled);
                assert(waiting.skip(cap) =~= leftover@);
                let grown = emitted.push(filled);
                assert(action_views(actions@) =~= sent.push(chunk@));
                assert(start.chunk_actions(grown, ready.byte_sink) =~= start.chunk_actions(
                    emitted,
                    ready.byte_sink,
                ).push(chunk@));
                emitted = grown;
                assert(self@.streams =~= ready.streams.update(
                    at as int,
                    StreamView {
                        buffered: self@.streams[at as int].buffered,
                        unsynced: start.unsynced || (start.on_disk && emitted.len() > 0),
                        ..start
                    },
                ));
            }
            overflow = leftover;
        }
        proof {
            assert(self@.streams =~= ready.streams.update(at as int, start.after_write(data@)));
        }
        actions
    }

    /// Writes `s` to the stream with the given name and extension. In
    /// local mode the text is captured instead; otherwise its bytes go to
    /// the stream and the text joins the pending line.
    pub fn write_string(&mut self, filename: &str, extension: &str, s: &str) -> (actions: Vec<
        WriterAction,
    >)
        requires
            old(self).wf(),
        ensures
            final(self).wf(),
            final(self)@ == old(self)@.after_write_text(filename@, extension@, s@),
            action_views(actions@) == old(self)@.write_text_actions(filename@, extension@, s@),
    {
        if self.local_mode {
            self.local_buffer.append(s);
            let none: Vec<WriterAction> = Vec::new();
            none
        } else {
            let actions = self.write_bytes(filename, extension, s.as_bytes());
            self.custom_line_buffer.append(s);
            actions
        }
    }

    /// Writes the character `c` to the stream with the given name and
    /// extension, as [`WriterContext::write_string`] writes the text that
    /// holds just `c`.
    pub fn write_char(&mut self, filename: &str, extension: &str, c: char) -> (actions: Vec<
        WriterAction,
    >)
        requires
            old(self).wf(),
        ensures
            final(self).wf(),
            final(self)@ == old(self)@.after_write_text(filename@, extension@, seq![c]),
            action_views(actions@) == old(self)@.write_text_actions(filename@, extension@, seq![c]),
    {
        let mut text = String::new();
        string_push(&mut text, c);
        self.write_string(filename, extension, text.as_str())
    }

    /// Enters local mode: from now on what is written is captured and no
    /// stream is touched. What was captured before is dropped.
    pub fn start_local_buffer_mode(&mut self)
        requires
            old(self).wf(),
        ensures
            final(self).wf(),
            final(self)@ == old(self)@.after_start_local(),
    {
        self.local_mode = true;
        self.local_buffer = String::new();
    }

    /// Leaves local mode and returns what was captured. Outside local
    /// mode nothing was captured, and the text returned is empty.
    pub fn finish_local_buffer_mode(&mut self) -> (content: String)
        requires
            old(self).wf(),
        ensures
            final(self).wf(),
            final(self)@ == old(self)@.after_finish_local(),
            content@ == old(self)@.local_capture,
            !old(self)@.local_mode ==> content@.len() == 0,
    {
        self.local_mode = false;
        let mut content = String::new();
        core::mem::swap(&mut self.local_buffer, &mut content);
        content
    }

    /// Ends the current line: the text written to streams since the last
    /// end of line goes to the line sink, when one is registered, under the
    /// name of the most recently used stream and with `types` beside it.
    /// The pending line is empty afterwards in either case.
    pub fn end_line(&mut self, types: &str) -> (actions: Vec<WriterAction>)
        requires
            old(self).wf(),
        ensures
            final(self).wf(),
            final(self)@ == old(self)@.after_end_line(),
            action_views(actions@) == old(self)@.end_line_actions(types@),
    {
        let mut actions: Vec<WriterAction> = Vec::new();
        let mut line = String::new();
        core::mem::swap(&mut self.custom_line_buffer, &mut line);
        if self.line_sink {
            let filename = match self.last_file_key {
                Some(at) => self.open_files[at].filename.clone(),
                None => String::new(),
            };
            actions.push(WriterAction::Line { filename, line, types: types.to_owned() });
        }
        actions
    }

    /// Writes one record of comma-separated values, with the given
    /// fields, to the stream that has the given name and the extension
    /// [`CSV_EXTENSION`]. In local mode the record is captured instead.
    pub fn write_csv_record(&mut self, filename: &str, fields: &Vec<String>) -> (actions: Vec<
        WriterAction,
    >)
        requires
            old(self).wf(),
        ensures
            final(self).wf(),
            final(self)@ == old(self)@.after_write_bytes(
                filename@,
                CSV_EXTENSION@,
                encode_utf8(csv_record(texts(fields@))),
            ),
            action_views(actions@) == old(self)@.write_bytes_actions(
                filename@,
                CSV_EXTENSION@,
                encode_utf8(csv_record(texts(fields@))),
            ),
            old(self)@.local_mode ==> final(self)@.local_capture == old(self)@.local_capture
                + csv_record(texts(fields@)),
    {
        let buffer = csv_encode_record(fields.as_slice()).unwrap();
        proof {
            encode_utf8_valid_utf8(csv_record(texts(fields@)));
            encode_utf8_decode_utf8(csv_record(texts(fields@)));
        }
        self.write_bytes(filename, CSV_EXTENSION, buffer.as_slice())
    }

    /// Flushes the stream at `at`: first its buffer, then its file if the
    /// file was given anything since it last flushed.
    fn sync_entry(&mut self, at: usize) -> (actions: Vec<WriterAction>)
        requires
            old(self).wf(),
            at < old(self)@.streams.len(),
        ensures
            final(self).wf(),
            final(self)@ == old(self)@.with_stream(
                at as int,
                old(self)@.streams[at as int].after_sync(),
            ),
            action_views(actions@) == old(self)@.streams[at as int].sync_actions(
                old(self)@.byte_sink,
            ),
    {
        let ghost stream = self@.streams[at as int];
        let mut actions: Vec<WriterAction> = Vec::new();
        if !self.open_files[at].buffer_file.is_empty() {
            let chunk = self.flush_entry(at);
            actions.push(chunk);
        } else {
            assert(stream.buffered =~= Seq::<u8>::empty());
            assert(self@.streams.update(at as int, stream.after_flush()) =~= self@.streams);
        }
        let ghost files = self.open_files@;
        let ghost mid = self@;
        assert(mid.streams.len() == files.len());
        assert(mid.streams[at as int] == files[at as int]@);
        if self.open_files[at].unsynced {
            actions.push(
                WriterAction::FlushFile {
                    filename: self.open_files[at].filename.clone(),
                    extension: self.open_files[at].extension.clone(),
                },
            );
            self.open_files[at].unsynced = false;
        }
        proof {
            assert(self@.streams =~= mid.streams.update(at as int, stream.after_sync()));
            assert(self@.streams =~= old(self)@.streams.update(at as int, stream.after_sync()));
        }
        actions
    }

    /// Flushes every stream, in the order of creation: what its buffer
    /// holds leaves as one chunk, and its file is made to flush if it was
    /// given anything since it last did. A second call right after the
    /// first has nothing left to do.
    pub fn flush_all(&mut self) -> (actions: Vec<WriterAction>)
        requires
            old(self).wf(),
        ensures
            final(self).wf(),
            final(self)@ == old(self)@.after_flush_all(),
            action_views(actions@) == old(self)@.flush_all_actions(),
    {
        let mut actions: Vec<WriterAction> = Vec::new();
        let mut at: usize = 0;
        let ghost start = self@;
        while at < self.open_files.len()
            invariant
                self.wf(),
                at <= self@.streams.len(),
                self@.streams.len() == start.streams.len(),
                forall|j: int| 0 <= j < at ==> self@.streams[j] == start.streams[j].after_sync(),
                forall|j: int| at <= j < start.streams.len() ==> self@.streams[j] == start.streams[j],
                self@ == (WriterView {
                    streams: self@.streams,
                    last: if at > 0 {
                        Some(at - 1)
                    } else {
                        start.last
                    },
                    ..start
                }),
                action_views(actions@) + sync_actions_from(start.streams, at as int, start.byte_sink)
                    == sync_actions_from(start.streams, 0, start.byte_sink),
            decreases start.streams.len() - at,
        {
            self.last_file_key = Some(at);
            let mut synced = self.sync_entry(at);
            actions.append(&mut synced);
            at += 1;
        }
        proof {
            assert(self@.streams =~= start.streams.map_values(|s: StreamView| s.after_sync()));
        }
        actions
    }
}

} // verus!
