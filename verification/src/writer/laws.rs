//! What holds of the writer whatever is written to it.
//!
//! Bytes reach a stream's sinks in the order in which they were written,
//! none lost and none twice, however the writes were cut and however often
//! the buffer overflowed in between; streams do not disturb each other;
//! and local mode touches no stream at all.

use vstd::prelude::*;
use vstd::utf8::*;
use crate::writer::actions::{chunk_for, delivered, ActionView};
use crate::writer::chunks::{flushed_chunks, lemma_chunk_sizes, lemma_chunks_rejoin};
use crate::writer::model::{
    first_match, lemma_first_match, lemma_first_match_at, sync_actions_from, StreamView,
    WriterView,
};

verus! {

/// What a sequence of actions delivers is what its parts deliver, one
/// after the other.
pub proof fn lemma_delivered_concat(
    a: Seq<ActionView>,
    b: Seq<ActionView>,
    filename: Seq<char>,
    extension: Seq<char>,
)
    ensures
        delivered(a + b, filename, extension) == delivered(a, filename, extension) + delivered(
            b,
            filename,
            extension,
        ),
    decreases b.len(),
{
    if b.len() > 0 {
        lemma_delivered_concat(a, b.drop_last(), filename, extension);
        assert((a + b).drop_last() =~= a + b.drop_last());
    }
}

/// The chunks of a stream deliver their bytes, joined in order, to that
/// stream and nothing to any other.
pub proof fn lemma_delivered_chunks(
    stream: StreamView,
    chunks: Seq<Seq<u8>>,
    to_sink: bool,
    filename: Seq<char>,
    extension: Seq<char>,
)
    ensures
        delivered(stream.chunk_actions(chunks, to_sink), filename, extension) == if stream.is(
            filename,
            extension,
        ) {
            chunks.flatten()
        } else {
            Seq::<u8>::empty()
        },
    decreases chunks.len(),
{
    let actions = stream.chunk_actions(chunks, to_sink);
    if chunks.len() > 0 {
        let init = chunks.drop_last();
        lemma_delivered_chunks(stream, init, to_sink, filename, extension);
        assert(actions.drop_last() =~= stream.chunk_actions(init, to_sink));
        init.lemma_flatten_push(chunks.last());
        assert(init.push(chunks.last()) =~= chunks);
    }
}

/// Replacing a stream by one of the same name and extension moves no
/// stream.
pub proof fn lemma_position_after_update(
    streams: Seq<StreamView>,
    at: int,
    stream: StreamView,
    filename: Seq<char>,
    extension: Seq<char>,
)
    requires
        0 <= at < streams.len(),
        stream.filename == streams[at].filename,
        stream.extension == streams[at].extension,
    ensures
        first_match(streams.update(at, stream), filename, extension) == first_match(
            streams,
            filename,
            extension,
        ),
{
    lemma_first_match(streams, filename, extension);
    let found = first_match(streams, filename, extension);
    let updated = streams.update(at, stream);
    assert forall|j: int| 0 <= j < found implies !(#[trigger] updated[j]).is(
        filename,
        extension,
    ) by {
    }
    lemma_first_match_at(updated, filename, extension, found);
}

/// A stream added at the end is found there when no earlier stream has
/// its name and extension, and moves no other stream.
pub proof fn lemma_position_after_push(
    streams: Seq<StreamView>,
    stream: StreamView,
    filename: Seq<char>,
    extension: Seq<char>,
)
    ensures
        first_match(streams.push(stream), filename, extension) == if first_match(
            streams,
            filename,
            extension,
        ) < streams.len() || stream.is(filename, extension) {
            first_match(streams, filename, extension)
        } else {
            streams.len() as int + 1
        },
{
    lemma_first_match(streams, filename, extension);
    let found = first_match(streams, filename, extension);
    let pushed = streams.push(stream);
    assert forall|j: int| 0 <= j < found implies !(#[trigger] pushed[j]).is(
        filename,
        extension,
    ) by {
    }
    if found < streams.len() || stream.is(filename, extension) {
        lemma_first_match_at(pushed, filename, extension, found);
    } else {
        lemma_first_match_at(pushed, filename, extension, streams.len() as int + 1);
    }
}

/// Looking up a stream keeps the writer well formed, leaves every buffer
/// as it was, and makes the stream known.
pub proof fn lemma_resolved(
    w: WriterView,
    filename: Seq<char>,
    extension: Seq<char>,
    other_filename: Seq<char>,
    other_extension: Seq<char>,
)
    requires
        w.wf(),
    ensures
        w.resolved(filename, extension).wf(),
        w.resolved(filename, extension).knows(filename, extension),
        w.resolved(filename, extension).position(filename, extension) == w.position(
            filename,
            extension,
        ),
        w.resolved(filename, extension).buffered(other_filename, other_extension) == w.buffered(
            other_filename,
            other_extension,
        ),
{
    let ready = w.resolved(filename, extension);
    lemma_first_match(w.streams, filename, extension);
    lemma_first_match(w.streams, other_filename, other_extension);
    if !w.knows(filename, extension) {
        let fresh = StreamView::fresh(filename, extension, w.buffer_size, w.write_to_disk, w.last);
        lemma_position_after_push(w.streams, fresh, filename, extension);
        lemma_position_after_push(w.streams, fresh, other_filename, other_extension);
        assert forall|i: int, j: int| 0 <= i < j < ready.streams.len() implies !(
        #[trigger] ready.streams[i]).is(
            (#[trigger] ready.streams[j]).filename,
            ready.streams[j].extension,
        ) by {
        }
    }
}

/// Writing to a stream keeps the writer well formed. What the write
/// delivers to the stream, followed by what the stream's buffer holds
/// afterwards, is what the buffer held before followed by what was
/// written. To every other stream the write delivers nothing, and it
/// leaves the other's buffer as it was.
pub proof fn lemma_write_conserves(
    w: WriterView,
    filename: Seq<char>,
    extension: Seq<char>,
    data: Seq<u8>,
    other_filename: Seq<char>,
    other_extension: Seq<char>,
)
    requires
        w.wf(),
        !w.local_mode,
    ensures
        w.after_write_bytes(filename, extension, data).wf(),
        delivered(w.write_bytes_actions(filename, extension, data), filename, extension)
            + w.after_write_bytes(filename, extension, data).buffered(filename, extension)
            == w.buffered(filename, extension) + data,
        !(other_filename == filename && other_extension == extension) ==> delivered(
            w.write_bytes_actions(filename, extension, data),
            other_filename,
            other_extension,
        ) == Seq::<u8>::empty() && w.after_write_bytes(filename, extension, data).buffered(
            other_filename,
            other_extension,
        ) == w.buffered(other_filename, other_extension),
{
    let after = w.after_write_bytes(filename, extension, data);
    if data.len() > 0 {
        let ready = w.resolved(filename, extension);
        let at = w.position(filename, extension);
        lemma_resolved(w, filename, extension, filename, extension);
        lemma_resolved(w, filename, extension, other_filename, other_extension);
        lemma_first_match(ready.streams, filename, extension);
        let stream = ready.streams[at];
        let total = stream.buffered + data;
        let chunks = flushed_chunks(stream.capacity, total);
        let written = stream.after_write(data);
        lemma_chunk_sizes(stream.capacity, total);
        lemma_chunks_rejoin(stream.capacity, total);
        lemma_position_after_update(ready.streams, at, written, filename, extension);
        lemma_position_after_update(ready.streams, at, written, other_filename, other_extension);
        // The writer stays well formed.
        assert forall|i: int, j: int| 0 <= i < j < after.streams.len() implies !(
        #[trigger] after.streams[i]).is(
            (#[trigger] after.streams[j]).filename,
            after.streams[j].extension,
        ) by {
        }
        assert forall|i: int| 0 <= i < after.streams.len() implies (#[trigger] after.streams[i]).capacity
            == after.buffer_size && after.streams[i].buffered.len() <= after.buffer_size by {
        }
        // What is delivered.
        let opened = w.resolve_actions(filename, extension);
        let sent = stream.write_actions(data, w.byte_sink);
        lemma_delivered_concat(opened, sent, filename, extension);
        lemma_delivered_concat(opened, sent, other_filename, other_extension);
        lemma_delivered_opening(w, filename, extension, filename, extension);
        lemma_delivered_opening(w, filename, extension, other_filename, other_extension);
        lemma_delivered_chunks(stream, chunks, w.byte_sink, filename, extension);
        lemma_delivered_chunks(stream, chunks, w.byte_sink, other_filename, other_extension);
        if !(other_filename == filename && other_extension == extension) {
            let other_at = ready.position(other_filename, other_extension);
            if other_at < ready.streams.len() {
                lemma_first_match(ready.streams, other_filename, other_extension);
            }
        }
    }
}

/// Opening a file delivers no bytes.
pub proof fn lemma_delivered_opening(
    w: WriterView,
    filename: Seq<char>,
    extension: Seq<char>,
    other_filename: Seq<char>,
    other_extension: Seq<char>,
)
    ensures
        delivered(w.resolve_actions(filename, extension), other_filename, other_extension)
            == Seq::<u8>::empty(),
{
    let opened = w.resolve_actions(filename, extension);
    if opened.len() > 0 {
        assert(delivered(opened.drop_last(), other_filename, other_extension) =~= Seq::<u8>::empty());
    }
}

/// Flushing one stream delivers what its buffer holds to that stream and
/// nothing to any other.
pub proof fn lemma_delivered_sync(
    stream: StreamView,
    to_sink: bool,
    filename: Seq<char>,
    extension: Seq<char>,
)
    ensures
        delivered(stream.sync_actions(to_sink), filename, extension) == if stream.is(
            filename,
            extension,
        ) {
            stream.buffered
        } else {
            Seq::<u8>::empty()
        },
{
    let flush = stream.flush_actions(to_sink);
    let sync = stream.sync_actions(to_sink);
    if stream.buffered.len() > 0 {
        assert(delivered(flush.drop_last(), filename, extension) =~= Seq::<u8>::empty());
        assert(delivered(flush, filename, extension) =~= chunk_for(
            flush.last(),
            filename,
            extension,
        ));
    } else {
        assert(stream.buffered =~= Seq::<u8>::empty());
    }
    if stream.after_flush().unsynced {
        assert(sync.drop_last() =~= flush);
    }
}

/// Flushing the streams from `from` on delivers to a stream what its
/// buffer holds if it stands there, and nothing otherwise.
proof fn lemma_delivered_sync_from(
    w: WriterView,
    from: int,
    filename: Seq<char>,
    extension: Seq<char>,
)
    requires
        w.wf(),
        0 <= from <= w.streams.len(),
    ensures
        delivered(sync_actions_from(w.streams, from, w.byte_sink), filename, extension) == if from
            <= w.position(filename, extension) {
            w.buffered(filename, extension)
        } else {
            Seq::<u8>::empty()
        },
    decreases w.streams.len() - from,
{
    lemma_first_match(w.streams, filename, extension);
    if from < w.streams.len() {
        let stream = w.streams[from];
        let rest = sync_actions_from(w.streams, from + 1, w.byte_sink);
        lemma_delivered_sync_from(w, from + 1, filename, extension);
        lemma_delivered_sync(stream, w.byte_sink, filename, extension);
        lemma_delivered_concat(stream.sync_actions(w.byte_sink), rest, filename, extension);
    }
}

/// Flushing all streams keeps the writer well formed, delivers to each
/// stream what its buffer holds, and leaves every buffer empty.
pub proof fn lemma_flush_all_delivers(w: WriterView, filename: Seq<char>, extension: Seq<char>)
    requires
        w.wf(),
    ensures
        w.after_flush_all().wf(),
        delivered(w.flush_all_actions(), filename, extension) == w.buffered(filename, extension),
        w.after_flush_all().buffered(filename, extension) == Seq::<u8>::empty(),
{
    let after = w.after_flush_all();
    lemma_delivered_sync_from(w, 0, filename, extension);
    lemma_first_match(w.streams, filename, extension);
    lemma_first_match(after.streams, filename, extension);
    assert forall|i: int, j: int| 0 <= i < j < after.streams.len() implies !(
    #[trigger] after.streams[i]).is(
        (#[trigger] after.streams[j]).filename,
        after.streams[j].extension,
    ) by {
    }
    assert forall|i: int| 0 <= i < after.streams.len() implies (#[trigger] after.streams[i]).capacity
        == after.buffer_size && after.streams[i].buffered.len() <= after.buffer_size by {
    }
}

/// Flushing all streams a second time, with nothing written in between,
/// asks for nothing and changes nothing.
pub proof fn lemma_flush_all_idempotent(w: WriterView)
    requires
        w.wf(),
    ensures
        w.after_flush_all().flush_all_actions() == Seq::<ActionView>::empty(),
        w.after_flush_all().after_flush_all() == w.after_flush_all(),
{
    let once = w.after_flush_all();
    let twice = once.after_flush_all();
    assert forall|i: int| 0 <= i < once.streams.len() implies (#[trigger] once.streams[i]).after_sync()
        == once.streams[i] by {
    }
    assert(twice.streams =~= once.streams);
    lemma_synced_ask_nothing(once.streams, 0, once.byte_sink);
}

/// Streams that hold nothing and whose files have flushed ask for nothing.
proof fn lemma_synced_ask_nothing(streams: Seq<StreamView>, from: int, to_sink: bool)
    requires
        0 <= from <= streams.len(),
        forall|i: int|
            0 <= i < streams.len() ==> (#[trigger] streams[i]).buffered.len() == 0
                && !streams[i].unsynced,
    ensures
        sync_actions_from(streams, from, to_sink) == Seq::<ActionView>::empty(),
    decreases streams.len() - from,
{
    if from < streams.len() {
        lemma_synced_ask_nothing(streams, from + 1, to_sink);
    }
}

/// In local mode a write asks for nothing and touches no stream, no
/// buffer and no pending line; the text joins what is captured.
pub proof fn lemma_local_write_is_isolated(
    w: WriterView,
    filename: Seq<char>,
    extension: Seq<char>,
    text: Seq<char>,
)
    requires
        w.wf(),
        w.local_mode,
    ensures
        w.write_text_actions(filename, extension, text) == Seq::<ActionView>::empty(),
        w.after_write_text(filename, extension, text) == (WriterView {
            local_capture: w.local_capture + text,
            ..w
        }),
        w.after_write_text(filename, extension, text).wf(),
{
}

/// Writing a text delivers and keeps what writing its bytes does.
pub proof fn lemma_write_text_conserves(
    w: WriterView,
    filename: Seq<char>,
    extension: Seq<char>,
    text: Seq<char>,
    other_filename: Seq<char>,
    other_extension: Seq<char>,
)
    requires
        w.wf(),
        !w.local_mode,
    ensures
        w.after_write_text(filename, extension, text).wf(),
        delivered(w.write_text_actions(filename, extension, text), filename, extension)
            + w.after_write_text(filename, extension, text).buffered(filename, extension)
            == w.buffered(filename, extension) + encode_utf8(text),
        !(other_filename == filename && other_extension == extension) ==> delivered(
            w.write_text_actions(filename, extension, text),
            other_filename,
            other_extension,
        ) == Seq::<u8>::empty() && w.after_write_text(filename, extension, text).buffered(
            other_filename,
            other_extension,
        ) == w.buffered(other_filename, other_extension),
        w.after_write_text(filename, extension, text).pending_line == w.pending_line + text,
{
    lemma_write_conserves(w, filename, extension, encode_utf8(text), other_filename, other_extension);
}

/// A failed open leaves no trace: when a write has created a stream and
/// the host reports that it could not open the stream's file, the writer
/// is as it was before the write.
pub proof fn lemma_open_failed_undoes(
    w: WriterView,
    filename: Seq<char>,
    extension: Seq<char>,
    data: Seq<u8>,
)
    requires
        w.wf(),
        !w.local_mode,
        !w.knows(filename, extension),
    ensures
        w.resolved(filename, extension).after_open_failed(filename, extension) == w,
        w.after_write_bytes(filename, extension, data).after_open_failed(filename, extension)
            == w,
        w.after_write_text(filename, extension, decode_utf8(data)).after_open_failed(
            filename,
            extension,
        ).streams == w.streams,
{
    lemma_first_match(w.streams, filename, extension);
    let ready = w.resolved(filename, extension);
    assert(ready.streams.drop_last() =~= w.streams);
    if data.len() > 0 {
        let written = w.after_write_bytes(filename, extension, data);
        assert(written.streams.drop_last() =~= w.streams);
    }
    let text = decode_utf8(data);
    let as_text = w.after_write_text(filename, extension, text);
    if encode_utf8(text).len() > 0 {
        assert(as_text.streams.drop_last() =~= w.streams);
    }
}

/// One write: bytes or a text, and the stream it goes to.
pub enum WriteView {
    Bytes { filename: Seq<char>, extension: Seq<char>, data: Seq<u8> },
    Text { filename: Seq<char>, extension: Seq<char>, text: Seq<char> },
}

impl WriteView {
    /// The name of the stream that the write goes to.
    pub open spec fn filename(self) -> Seq<char> {
        match self {
            WriteView::Bytes { filename, .. } => filename,
            WriteView::Text { filename, .. } => filename,
        }
    }

    /// The extension of the stream that the write goes to.
    pub open spec fn extension(self) -> Seq<char> {
        match self {
            WriteView::Bytes { extension, .. } => extension,
            WriteView::Text { extension, .. } => extension,
        }
    }

    /// The bytes that the write hands to its stream.
    pub open spec fn bytes(self) -> Seq<u8> {
        match self {
            WriteView::Bytes { data, .. } => data,
            WriteView::Text { text, .. } => encode_utf8(text),
        }
    }

    /// The text that is captured of the write in local mode.
    pub open spec fn captured(self) -> Seq<char> {
        match self {
            WriteView::Bytes { data, .. } => crate::text::lossy_text(data),
            WriteView::Text { text, .. } => text,
        }
    }

    /// The writer after the write.
    pub open spec fn after(self, w: WriterView) -> WriterView {
        match self {
            WriteView::Bytes { filename, extension, data } => w.after_write_bytes(
                filename,
                extension,
                data,
            ),
            WriteView::Text { filename, extension, text } => w.after_write_text(
                filename,
                extension,
                text,
            ),
        }
    }

    /// The actions of the write.
    pub open spec fn actions(self, w: WriterView) -> Seq<ActionView> {
        w.write_bytes_actions(self.filename(), self.extension(), self.bytes())
    }
}

/// The writer after the given writes, one after the other.
pub open spec fn after_writes(w: WriterView, writes: Seq<WriteView>) -> WriterView
    decreases writes.len(),
{
    if writes.len() == 0 {
        w
    } else {
        writes.last().after(after_writes(w, writes.drop_last()))
    }
}

/// The actions of the given writes, in the order of the writes.
pub open spec fn writes_actions(w: WriterView, writes: Seq<WriteView>) -> Seq<ActionView>
    decreases writes.len(),
{
    if writes.len() == 0 {
        Seq::<ActionView>::empty()
    } else {
        writes_actions(w, writes.drop_last()) + writes.last().actions(
            after_writes(w, writes.drop_last()),
        )
    }
}

/// The bytes that the given writes write to the stream with the given
/// name and extension, in the order of the writes.
pub open spec fn written_to(writes: Seq<WriteView>, filename: Seq<char>, extension: Seq<char>) -> Seq<u8>
    decreases writes.len(),
{
    if writes.len() == 0 {
        Seq::<u8>::empty()
    } else if writes.last().filename() == filename && writes.last().extension() == extension {
        written_to(writes.drop_last(), filename, extension) + writes.last().bytes()
    } else {
        written_to(writes.drop_last(), filename, extension)
    }
}

/// The text that is captured of the given writes in local mode, in the
/// order of the writes.
pub open spec fn captured_of(writes: Seq<WriteView>) -> Seq<char>
    decreases writes.len(),
{
    if writes.len() == 0 {
        Seq::<char>::empty()
    } else {
        captured_of(writes.drop_last()) + writes.last().captured()
    }
}

/// True when every chunk among the actions holds at least one byte and no
/// more than `capacity`.
pub open spec fn chunks_within(actions: Seq<ActionView>, capacity: nat) -> bool {
    forall|i: int|
        0 <= i < actions.len() ==> match #[trigger] actions[i] {
            ActionView::Chunk { data, .. } => 1 <= data.len() <= capacity,
            _ => true,
        }
}

/// The chunks of one write are as large as the buffer.
pub proof fn lemma_write_chunks_within(
    w: WriterView,
    filename: Seq<char>,
    extension: Seq<char>,
    data: Seq<u8>,
)
    requires
        w.wf(),
    ensures
        chunks_within(w.write_bytes_actions(filename, extension, data), w.buffer_size),
{
    if !w.local_mode && data.len() > 0 {
        let ready = w.resolved(filename, extension);
        let at = w.position(filename, extension);
        lemma_resolved(w, filename, extension, filename, extension);
        lemma_first_match(ready.streams, filename, extension);
        let stream = ready.streams[at];
        lemma_chunk_sizes(stream.capacity, stream.buffered + data);
        let opened = w.resolve_actions(filename, extension);
        let sent = stream.write_actions(data, w.byte_sink);
        let all = w.write_bytes_actions(filename, extension, data);
        assert forall|i: int| 0 <= i < all.len() implies match #[trigger] all[i] {
            ActionView::Chunk { data, .. } => 1 <= data.len() <= w.buffer_size,
            _ => true,
        } by {
            if i >= opened.len() {
                assert(all[i] == sent[i - opened.len()]);
            }
        }
    }
}

/// The chunks of a flush of the streams from `from` on are no larger than
/// the buffer, and none is empty.
proof fn lemma_sync_chunks_within(w: WriterView, from: int)
    requires
        w.wf(),
        0 <= from <= w.streams.len(),
    ensures
        chunks_within(sync_actions_from(w.streams, from, w.byte_sink), w.buffer_size),
    decreases w.streams.len() - from,
{
    if from < w.streams.len() {
        lemma_sync_chunks_within(w, from + 1);
        let first = w.streams[from].sync_actions(w.byte_sink);
        let rest = sync_actions_from(w.streams, from + 1, w.byte_sink);
        let all = sync_actions_from(w.streams, from, w.byte_sink);
        assert forall|i: int| 0 <= i < all.len() implies match #[trigger] all[i] {
            ActionView::Chunk { data, .. } => 1 <= data.len() <= w.buffer_size,
            _ => true,
        } by {
            if i >= first.len() {
                assert(all[i] == rest[i - first.len()]);
            }
        }
    }
}

/// After any writes outside local mode, what was delivered to a stream,
/// followed by what its buffer holds, is what its buffer held at first
/// followed by all that was written to it, in the order of the writes;
/// and every chunk that left holds as many bytes as the buffer.
pub proof fn lemma_writes_conserve(
    w: WriterView,
    writes: Seq<WriteView>,
    filename: Seq<char>,
    extension: Seq<char>,
)
    requires
        w.wf(),
        !w.local_mode,
    ensures
        after_writes(w, writes).wf(),
        !after_writes(w, writes).local_mode,
        after_writes(w, writes).buffer_size == w.buffer_size,
        chunks_within(writes_actions(w, writes), w.buffer_size),
        delivered(writes_actions(w, writes), filename, extension) + after_writes(
            w,
            writes,
        ).buffered(filename, extension) == w.buffered(filename, extension) + written_to(
            writes,
            filename,
            extension,
        ),
    decreases writes.len(),
{
    if writes.len() == 0 {
        assert(delivered(writes_actions(w, writes), filename, extension) + w.buffered(
            filename,
            extension,
        ) =~= w.buffered(filename, extension) + written_to(writes, filename, extension));
    } else {
        let init = writes.drop_last();
        let last = writes.last();
        let before = after_writes(w, init);
        let sent = writes_actions(w, init);
        let step = last.actions(before);
        let after = after_writes(w, writes);
        lemma_writes_conserve(w, init, filename, extension);
        lemma_write_conserves(
            before,
            last.filename(),
            last.extension(),
            last.bytes(),
            filename,
            extension,
        );
        lemma_write_chunks_within(before, last.filename(), last.extension(), last.bytes());
        lemma_delivered_concat(sent, step, filename, extension);
        assert(after.streams == before.after_write_bytes(
            last.filename(),
            last.extension(),
            last.bytes(),
        ).streams);
        assert(after.buffered(filename, extension) == before.after_write_bytes(
            last.filename(),
            last.extension(),
            last.bytes(),
        ).buffered(filename, extension));
        let all = writes_actions(w, writes);
        assert forall|i: int| 0 <= i < all.len() implies match #[trigger] all[i] {
            ActionView::Chunk { data, .. } => 1 <= data.len() <= w.buffer_size,
            _ => true,
        } by {
            if i >= sent.len() {
                assert(all[i] == step[i - sent.len()]);
            } else {
                assert(all[i] == sent[i]);
            }
        }
        let held = w.buffered(filename, extension);
        let so_far = written_to(init, filename, extension);
        if last.filename() == filename && last.extension() == extension {
            assert((delivered(sent, filename, extension) + delivered(step, filename, extension))
                + after.buffered(filename, extension) =~= delivered(sent, filename, extension)
                + (delivered(step, filename, extension) + after.buffered(filename, extension)));
            assert(delivered(sent, filename, extension) + (before.buffered(filename, extension)
                + last.bytes()) =~= (delivered(sent, filename, extension) + before.buffered(
                filename,
                extension,
            )) + last.bytes());
            assert((held + so_far) + last.bytes() =~= held + (so_far + last.bytes()));
        } else {
            assert(delivered(sent, filename, extension) + Seq::<u8>::empty() =~= delivered(
                sent,
                filename,
                extension,
            ));
        }
    }
}

/// Whatever is written, in whatever pieces and with whatever flushes in
/// between, comes out whole and in order. After any writes of bytes,
/// texts and characters to a writer whose buffer for a stream is empty,
/// and a flush of all streams at the end: the stream has been delivered
/// exactly the bytes that were written to it, in the order in which they
/// were written; every chunk holds at least one byte and no more than the
/// buffer; every buffer is empty; and the flush has neither added nor
/// removed a stream.
pub proof fn lemma_writes_then_flush_deliver_all(
    w: WriterView,
    writes: Seq<WriteView>,
    filename: Seq<char>,
    extension: Seq<char>,
)
    requires
        w.wf(),
        !w.local_mode,
        w.buffered(filename, extension).len() == 0,
    ensures
        delivered(
            writes_actions(w, writes) + after_writes(w, writes).flush_all_actions(),
            filename,
            extension,
        ) == written_to(writes, filename, extension),
        chunks_within(
            writes_actions(w, writes) + after_writes(w, writes).flush_all_actions(),
            w.buffer_size,
        ),
        after_writes(w, writes).after_flush_all().buffered(filename, extension).len() == 0,
        after_writes(w, writes).after_flush_all().streams.len() == after_writes(
            w,
            writes,
        ).streams.len(),
        forall|i: int|
            0 <= i < after_writes(w, writes).streams.len() ==> (#[trigger] after_writes(
                w,
                writes,
            ).after_flush_all().streams[i]).is(
                after_writes(w, writes).streams[i].filename,
                after_writes(w, writes).streams[i].extension,
            ),
{
    let after = after_writes(w, writes);
    let sent = writes_actions(w, writes);
    let flushed = after.flush_all_actions();
    lemma_writes_conserve(w, writes, filename, extension);
    lemma_flush_all_delivers(after, filename, extension);
    lemma_sync_chunks_within(after, 0);
    lemma_delivered_concat(sent, flushed, filename, extension);
    assert(w.buffered(filename, extension) + written_to(writes, filename, extension)
        =~= written_to(writes, filename, extension));
    let all = sent + flushed;
    assert forall|i: int| 0 <= i < all.len() implies match #[trigger] all[i] {
        ActionView::Chunk { data, .. } => 1 <= data.len() <= w.buffer_size,
        _ => true,
    } by {
        if i >= sent.len() {
            assert(all[i] == flushed[i - sent.len()]);
        } else {
            assert(all[i] == sent[i]);
        }
    }
}

/// Local mode captures and touches nothing else. After entering local
/// mode and any writes of bytes, texts and characters: no write has asked
/// for anything; what is captured is what was written, in order; and
/// leaving local mode leaves the writer as it was before, out of local
/// mode and with nothing captured, so that leaving once more returns the
/// empty text.
pub proof fn lemma_local_capture_returns_all_writes(w: WriterView, writes: Seq<WriteView>)
    requires
        w.wf(),
    ensures
        after_writes(w.after_start_local(), writes).wf(),
        after_writes(w.after_start_local(), writes).local_mode,
        after_writes(w.after_start_local(), writes).local_capture == captured_of(writes),
        writes_actions(w.after_start_local(), writes) == Seq::<ActionView>::empty(),
        after_writes(w.after_start_local(), writes).after_finish_local()
            == w.after_finish_local(),
        w.after_finish_local().streams == w.streams,
        w.after_finish_local().last == w.last,
        w.after_finish_local().pending_line == w.pending_line,
        !w.after_finish_local().local_mode,
        w.after_finish_local().local_capture.len() == 0,
    decreases writes.len(),
{
    let entered = w.after_start_local();
    if writes.len() == 0 {
        assert(entered.local_capture =~= captured_of(writes));
    } else {
        let init = writes.drop_last();
        lemma_local_capture_returns_all_writes(w, init);
        let before = after_writes(entered, init);
        let after = after_writes(entered, writes);
        assert(after.local_capture =~= captured_of(writes));
        assert(writes_actions(entered, writes) =~= Seq::<ActionView>::empty());
    }
}

} // verus!
