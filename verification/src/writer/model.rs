//! The writer as plain values: what it holds and what each operation makes
//! of it.

use vstd::prelude::*;
use vstd::utf8::*;
use crate::text::{lossy_text, replaced, trimmed_start};
use crate::writer::actions::ActionView;
use crate::writer::chunks::{flushed_chunks, kept_bytes};

verus! {

/// One output stream.
pub struct StreamView {
    /// The stream's name.
    pub filename: Seq<char>,
    /// The stream's extension.
    pub extension: Seq<char>,
    /// The most bytes the stream's buffer holds.
    pub capacity: nat,
    /// The bytes written to the stream that have not left its buffer.
    pub buffered: Seq<u8>,
    /// Whether a file stands behind the stream.
    pub on_disk: bool,
    /// Whether the file may hold bytes that it has not been made to flush.
    pub unsynced: bool,
    /// Where the stream stood that was the most recently used one when
    /// this stream was created.
    pub opened_after: Option<int>,
}

/// The writer.
pub struct WriterView {
    pub output_directory: Seq<char>,
    pub filing_id: Seq<char>,
    pub write_to_disk: bool,
    pub buffer_size: nat,
    /// Whether a byte sink is registered.
    pub byte_sink: bool,
    /// Whether a line sink is registered.
    pub line_sink: bool,
    /// The streams, in the order of their creation.
    pub streams: Seq<StreamView>,
    /// Where in `streams` the most recently used stream stands.
    pub last: Option<int>,
    pub local_mode: bool,
    /// The text captured since local mode was entered.
    pub local_capture: Seq<char>,
    /// The text written to streams since the last end of line.
    pub pending_line: Seq<char>,
}

impl StreamView {
    /// Whether this is the stream with the given name and extension.
    pub open spec fn is(self, filename: Seq<char>, extension: Seq<char>) -> bool {
        self.filename == filename && self.extension == extension
    }

    /// A new, empty stream.
    pub open spec fn fresh(
        filename: Seq<char>,
        extension: Seq<char>,
        capacity: nat,
        on_disk: bool,
        opened_after: Option<int>,
    ) -> StreamView {
        StreamView {
            filename,
            extension,
            capacity,
            buffered: Seq::<u8>::empty(),
            on_disk,
            unsynced: on_disk,
            opened_after,
        }
    }

    /// The stream after `data` was written to it.
    pub open spec fn after_write(self, data: Seq<u8>) -> StreamView {
        StreamView {
            buffered: kept_bytes(self.capacity, self.buffered + data),
            unsynced: self.unsynced || (self.on_disk && flushed_chunks(
                self.capacity,
                self.buffered + data,
            ).len() > 0),
            ..self
        }
    }

    /// The stream after its buffer was flushed.
    pub open spec fn after_flush(self) -> StreamView {
        StreamView {
            buffered: Seq::<u8>::empty(),
            unsynced: self.unsynced || (self.on_disk && self.buffered.len() > 0),
            ..self
        }
    }

    /// The stream after its buffer was flushed and its file made to flush.
    pub open spec fn after_sync(self) -> StreamView {
        StreamView { buffered: Seq::<u8>::empty(), unsynced: false, ..self }
    }

    /// The action that delivers `data` as a chunk of this stream.
    pub open spec fn chunk(self, data: Seq<u8>, to_sink: bool) -> ActionView {
        ActionView::Chunk {
            filename: self.filename,
            extension: self.extension,
            data,
            to_sink,
            to_file: self.on_disk,
        }
    }

    /// The actions that deliver `chunks` as chunks of this stream, one
    /// after the other.
    pub open spec fn chunk_actions(self, chunks: Seq<Seq<u8>>, to_sink: bool) -> Seq<ActionView> {
        Seq::new(chunks.len(), |i: int| self.chunk(chunks[i], to_sink))
    }

    /// The actions that deliver the chunks that leave when `data` is
    /// written to this stream.
    pub open spec fn write_actions(self, data: Seq<u8>, to_sink: bool) -> Seq<ActionView> {
        self.chunk_actions(flushed_chunks(self.capacity, self.buffered + data), to_sink)
    }

    /// The actions that flush this stream's buffer: one chunk with all
    /// that the buffer holds, or nothing when it is empty.
    pub open spec fn flush_actions(self, to_sink: bool) -> Seq<ActionView> {
        if self.buffered.len() > 0 {
            seq![self.chunk(self.buffered, to_sink)]
        } else {
            Seq::<ActionView>::empty()
        }
    }

    /// The actions that flush this stream's buffer and then its file.
    pub open spec fn sync_actions(self, to_sink: bool) -> Seq<ActionView> {
        if self.after_flush().unsynced {
            self.flush_actions(to_sink).push(
                ActionView::FlushFile { filename: self.filename, extension: self.extension },
            )
        } else {
            self.flush_actions(to_sink)
        }
    }
}

/// Where in `streams` the first stream with the given name and extension
/// stands; the length of `streams` when there is none.
pub open spec fn first_match(streams: Seq<StreamView>, filename: Seq<char>, extension: Seq<char>) -> int
    decreases streams.len(),
{
    if streams.len() == 0 {
        0
    } else if streams[0].is(filename, extension) {
        0
    } else {
        1 + first_match(streams.drop_first(), filename, extension)
    }
}

/// Where the first match stands: within bounds, at a stream that matches
/// when there is one, and behind streams that do not.
pub proof fn lemma_first_match(streams: Seq<StreamView>, filename: Seq<char>, extension: Seq<char>)
    ensures
        0 <= first_match(streams, filename, extension) <= streams.len(),
        first_match(streams, filename, extension) < streams.len() ==> streams[first_match(
            streams,
            filename,
            extension,
        )].is(filename, extension),
        forall|j: int|
            0 <= j < first_match(streams, filename, extension) ==> !(#[trigger] streams[j]).is(
                filename,
                extension,
            ),
    decreases streams.len(),
{
    if streams.len() > 0 && !streams[0].is(filename, extension) {
        let rest = streams.drop_first();
        lemma_first_match(rest, filename, extension);
        assert forall|j: int|
            0 <= j < first_match(streams, filename, extension) implies !(#[trigger] streams[j]).is(
            filename,
            extension,
        ) by {
            if j > 0 {
                assert(streams[j] == rest[j - 1]);
            }
        }
    }
}

/// The first match stands at `at` when the stream there matches and none
/// before it does; it stands at the end when no stream before `at`
/// matches and `at` is the end.
pub proof fn lemma_first_match_at(
    streams: Seq<StreamView>,
    filename: Seq<char>,
    extension: Seq<char>,
    at: int,
)
    requires
        0 <= at <= streams.len(),
        at < streams.len() ==> streams[at].is(filename, extension),
        forall|j: int| 0 <= j < at ==> !(#[trigger] streams[j]).is(filename, extension),
    ensures
        first_match(streams, filename, extension) == at,
{
    lemma_first_match(streams, filename, extension);
}

/// The actions that flush the streams from `from` on, each stream's buffer
/// and then its file, in the order of the streams.
pub open spec fn sync_actions_from(streams: Seq<StreamView>, from: int, to_sink: bool) -> Seq<ActionView>
    decreases streams.len() - from,
{
    if from < 0 || from >= streams.len() {
        Seq::<ActionView>::empty()
    } else {
        streams[from].sync_actions(to_sink) + sync_actions_from(streams, from + 1, to_sink)
    }
}

impl WriterView {
    /// What holds of every writer: buffers have the configured capacity,
    /// which is not zero, and hold no more than that; no two streams have
    /// the same name and extension; each stream was created after the one
    /// that was then the most recently used; and nothing is captured
    /// outside local mode.
    pub open spec fn wf(self) -> bool {
        &&& self.buffer_size > 0
        &&& forall|i: int|
            0 <= i < self.streams.len() ==> (#[trigger] self.streams[i]).capacity
                == self.buffer_size && self.streams[i].buffered.len() <= self.buffer_size
        &&& forall|i: int, j: int|
            0 <= i < j < self.streams.len() ==> !(#[trigger] self.streams[i]).is(
                (#[trigger] self.streams[j]).filename,
                self.streams[j].extension,
            )
        &&& match self.last {
            Some(i) => 0 <= i < self.streams.len(),
            None => true,
        }
        &&& forall|i: int|
            0 <= i < self.streams.len() ==> match (#[trigger] self.streams[i]).opened_after {
                Some(j) => 0 <= j < i,
                None => true,
            }
        &&& !self.local_mode ==> self.local_capture.len() == 0
    }

    /// Where the stream with the given name and extension stands; the
    /// number of streams when there is none.
    pub open spec fn position(self, filename: Seq<char>, extension: Seq<char>) -> int {
        first_match(self.streams, filename, extension)
    }

    /// Whether a stream with the given name and extension exists.
    pub open spec fn knows(self, filename: Seq<char>, extension: Seq<char>) -> bool {
        self.position(filename, extension) < self.streams.len()
    }

    /// What the buffer of the stream with the given name and extension
    /// holds; nothing when there is no such stream.
    pub open spec fn buffered(self, filename: Seq<char>, extension: Seq<char>) -> Seq<u8> {
        if self.knows(filename, extension) {
            self.streams[self.position(filename, extension)].buffered
        } else {
            Seq::<u8>::empty()
        }
    }

    /// The name of the most recently used stream; empty when no stream was
    /// used yet.
    pub open spec fn last_filename(self) -> Seq<char> {
        match self.last {
            Some(i) => self.streams[i].filename,
            None => Seq::<char>::empty(),
        }
    }

    /// The writer after the stream with the given name and extension was
    /// looked up: the stream exists, created empty if it did not, and is
    /// the most recently used one.
    pub open spec fn resolved(self, filename: Seq<char>, extension: Seq<char>) -> WriterView {
        let at = self.position(filename, extension);
        if self.knows(filename, extension) {
            WriterView { last: Some(at), ..self }
        } else {
            WriterView {
                streams: self.streams.push(
                    StreamView::fresh(
                        filename,
                        extension,
                        self.buffer_size,
                        self.write_to_disk,
                        self.last,
                    ),
                ),
                last: Some(at),
                ..self
            }
        }
    }

    /// The actions of looking up the stream with the given name and
    /// extension: its file is opened when the stream is created and the
    /// writer writes to disk. The file is named after the stream, with a
    /// hyphen for each slash, and has the stream's extension without its
    /// leading dots.
    pub open spec fn resolve_actions(self, filename: Seq<char>, extension: Seq<char>) -> Seq<ActionView> {
        if !self.knows(filename, extension) && self.write_to_disk {
            seq![
                ActionView::OpenFile {
                    filename,
                    extension,
                    output_directory: self.output_directory,
                    filing_id: self.filing_id,
                    file_stem: replaced(filename, '/', seq!['-']),
                    file_extension: trimmed_start(extension, '.'),
                },
            ]
        } else {
            Seq::<ActionView>::empty()
        }
    }

    /// The writer after the host reported that it could not open the file
    /// of the stream with the given name and extension. When that stream
    /// is the newest, the writer forgets it, with what was written to it,
    /// and the most recently used stream is the one that was so before the
    /// stream was created. Otherwise nothing changes.
    pub open spec fn after_open_failed(self, filename: Seq<char>, extension: Seq<char>) -> WriterView {
        if self.streams.len() > 0 && self.streams.last().is(filename, extension) {
            WriterView {
                streams: self.streams.drop_last(),
                last: self.streams.last().opened_after,
                ..self
            }
        } else {
            self
        }
    }

    /// The writer with the stream at `at` replaced.
    pub open spec fn with_stream(self, at: int, stream: StreamView) -> WriterView {
        WriterView { streams: self.streams.update(at, stream), ..self }
    }

    /// The writer after the buffer of the stream with the given name and
    /// extension was flushed.
    pub open spec fn after_flush_buffer(self, filename: Seq<char>, extension: Seq<char>) -> WriterView {
        let ready = self.resolved(filename, extension);
        let at = self.position(filename, extension);
        ready.with_stream(at, ready.streams[at].after_flush())
    }

    /// The actions of flushing the buffer of the stream with the given
    /// name and extension.
    pub open spec fn flush_buffer_actions(self, filename: Seq<char>, extension: Seq<char>) -> Seq<ActionView> {
        let ready = self.resolved(filename, extension);
        let at = self.position(filename, extension);
        self.resolve_actions(filename, extension) + ready.streams[at].flush_actions(self.byte_sink)
    }

    /// The writer after `data` was written to the stream with the given
    /// name and extension. In local mode the bytes are captured as text and
    /// no stream is touched; an empty write touches no stream either.
    pub open spec fn after_write_bytes(self, filename: Seq<char>, extension: Seq<char>, data: Seq<u8>) -> WriterView {
        if self.local_mode {
            WriterView { local_capture: self.local_capture + lossy_text(data), ..self }
        } else if data.len() == 0 {
            self
        } else {
            let ready = self.resolved(filename, extension);
            let at = self.position(filename, extension);
            ready.with_stream(at, ready.streams[at].after_write(data))
        }
    }

    /// The actions of writing `data` to the stream with the given name and
    /// extension.
    pub open spec fn write_bytes_actions(self, filename: Seq<char>, extension: Seq<char>, data: Seq<u8>) -> Seq<ActionView> {
        if self.local_mode || data.len() == 0 {
            Seq::<ActionView>::empty()
        } else {
            let ready = self.resolved(filename, extension);
            let at = self.position(filename, extension);
            self.resolve_actions(filename, extension) + ready.streams[at].write_actions(
                data,
                self.byte_sink,
            )
        }
    }

    /// The writer after `text` was written to the stream with the given
    /// name and extension. In local mode the text is captured; otherwise
    /// its bytes go to the stream and the text joins the pending line.
    pub open spec fn after_write_text(self, filename: Seq<char>, extension: Seq<char>, text: Seq<char>) -> WriterView {
        if self.local_mode {
            WriterView { local_capture: self.local_capture + text, ..self }
        } else {
            WriterView {
                pending_line: self.pending_line + text,
                ..self.after_write_bytes(filename, extension, encode_utf8(text))
            }
        }
    }

    /// The actions of writing `text` to the stream with the given name and
    /// extension.
    pub open spec fn write_text_actions(self, filename: Seq<char>, extension: Seq<char>, text: Seq<char>) -> Seq<ActionView> {
        self.write_bytes_actions(filename, extension, encode_utf8(text))
    }

    /// The writer after the end of a line.
    pub open spec fn after_end_line(self) -> WriterView {
        WriterView { pending_line: Seq::<char>::empty(), ..self }
    }

    /// The actions of ending a line: the pending line goes to the line
    /// sink, under the name of the most recently used stream, when a line
    /// sink is registered.
    pub open spec fn end_line_actions(self, types: Seq<char>) -> Seq<ActionView> {
        if self.line_sink {
            seq![
                ActionView::Line { filename: self.last_filename(), line: self.pending_line, types },
            ]
        } else {
            Seq::<ActionView>::empty()
        }
    }

    /// The writer after local mode was entered.
    pub open spec fn after_start_local(self) -> WriterView {
        WriterView { local_mode: true, local_capture: Seq::<char>::empty(), ..self }
    }

    /// The writer after local mode was left.
    pub open spec fn after_finish_local(self) -> WriterView {
        WriterView { local_mode: false, local_capture: Seq::<char>::empty(), ..self }
    }

    /// The writer after all streams were flushed.
    pub open spec fn after_flush_all(self) -> WriterView {
        WriterView {
            streams: self.streams.map_values(|s: StreamView| s.after_sync()),
            last: if self.streams.len() > 0 {
                Some(self.streams.len() - 1)
            } else {
                self.last
            },
            ..self
        }
    }

    /// The actions of flushing all streams, in the order of their creation.
    pub open spec fn flush_all_actions(self) -> Seq<ActionView> {
        sync_actions_from(self.streams, 0, self.byte_sink)
    }
}

} // verus!
