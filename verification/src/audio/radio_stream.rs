//! The bytes of a radio stream, from the body of a response to the decoder.

use vstd::prelude::*;

verus! {

/// What the body of a response yields.
#[derive(Debug)]
pub enum BodyEvent {
    /// A frame with data.
    Data { bytes: Vec<u8> },
    /// A frame without data.
    NoData,
    /// The transfer failed.
    Failed { message: String },
    /// The body is complete.
    End,
}

/// What the connection hands to the reader.
#[derive(Debug)]
pub enum Chunk {
    Data { bytes: Vec<u8> },
    Failed { message: String },
}

/// What to do with a frame of the body.
#[derive(Debug)]
pub enum RelayStep {
    /// Hand the chunk on. Go on with the body unless `last` is set or the
    /// reader is gone.
    Send { chunk: Chunk, last: bool },
    /// Go on with the body.
    Skip,
    /// Close the connection to the reader.
    Stop,
}

/// What becomes of a frame of the body.
pub open spec fn relay_step(event: BodyEvent) -> RelayStep {
    match event {
        BodyEvent::Data { bytes } => RelayStep::Send { chunk: Chunk::Data { bytes }, last: false },
        BodyEvent::NoData => RelayStep::Skip,
        BodyEvent::Failed { message } => RelayStep::Send {
            chunk: Chunk::Failed { message },
            last: true,
        },
        BodyEvent::End => RelayStep::Stop,
    }
}

/// Passes a frame of the body on to the reader.
pub fn relay_frame(event: BodyEvent) -> (step: RelayStep)
    ensures
        step == relay_step(event),
{
    match event {
        BodyEvent::Data { bytes } => RelayStep::Send { chunk: Chunk::Data { bytes }, last: false },
        BodyEvent::NoData => RelayStep::Skip,
        BodyEvent::Failed { message } => RelayStep::Send {
            chunk: Chunk::Failed { message },
            last: true,
        },
        BodyEvent::End => RelayStep::Stop,
    }
}

/// The bytes that have arrived and have not been read yet.
#[derive(Debug)]
pub struct RadioStream {
    current: Vec<u8>,
    position: usize,
}

impl View for RadioStream {
    type V = Seq<u8>;

    /// The bytes that have not been read.
    closed spec fn view(&self) -> Seq<u8> {
        if self.position < self.current@.len() {
            self.current@.skip(self.position as int)
        } else {
            Seq::empty()
        }
    }
}

/// How a read ends.
#[derive(Debug)]
pub enum ReadEnd {
    /// `count` bytes were read; none at the end of the stream.
    Read { count: usize },
    /// The transfer failed.
    Failed { message: String },
}

/// The number of bytes that a read of at most `len` bytes takes.
pub open spec fn read_count(unread: Seq<u8>, len: nat) -> nat {
    if len <= unread.len() {
        len
    } else {
        unread.len()
    }
}

impl RadioStream {
    /// A stream of which nothing has arrived.
    pub fn new() -> (stream: RadioStream)
        ensures
            stream@ == Seq::<u8>::empty(),
    {
        RadioStream { current: Vec::new(), position: 0 }
    }

    /// Reads what has arrived into the front of `buf`, as much as fits. `None`
    /// if nothing is left: then the next chunk has to be received first.
    pub fn read(&mut self, buf: &mut [u8]) -> (count: Option<usize>)
        ensures
            old(self)@.len() == 0 ==> {
                &&& count is None
                &&& final(self)@ == old(self)@
                &&& final(buf)@ == old(buf)@
            },
            old(self)@.len() > 0 ==> {
                let taken = read_count(old(self)@, old(buf)@.len());
                &&& count == Some(taken as usize)
                &&& final(self)@ == old(self)@.skip(taken as int)
                &&& final(buf)@ == old(self)@.take(taken as int) + old(buf)@.skip(taken as int)
            },
    {
        if self.position >= self.current.len() {
            return None;
        }
        let left: usize = self.current.len() - self.position;
        let taken: usize = if buf.len() <= left {
            buf.len()
        } else {
            left
        };
        let mut copied: usize = 0;
        while copied < taken
            invariant
                copied <= taken <= buf@.len() == old(buf)@.len(),
                self.position + taken <= self.current@.len() <= usize::MAX,
                *self == *old(self),
                buf@ == self.current@.subrange(
                    self.position as int,
                    self.position + copied,
                ) + old(buf)@.skip(copied as int),
            decreases taken - copied,
        {
            buf[copied] = self.current[self.position + copied];
            copied += 1;
        }
        self.position = self.position + taken;
        Some(taken)
    }

    /// Takes the next chunk, or the news that the connection is closed, once
    /// all earlier bytes were read. `None` if the read goes on.
    pub fn receive(&mut self, chunk: Option<Chunk>) -> (end: Option<ReadEnd>)
        ensures
            match chunk {
                Some(Chunk::Data { bytes }) => end is None && final(self)@ == bytes@,
                Some(Chunk::Failed { message }) => end == Some(ReadEnd::Failed { message })
                    && final(self)@ == old(self)@,
                None => end == Some(ReadEnd::Read { count: 0 }) && final(self)@ == old(self)@,
            },
    {
        match chunk {
            Some(Chunk::Data { bytes }) => {
                self.current = bytes;
                self.position = 0;
                None
            },
            Some(Chunk::Failed { message }) => Some(ReadEnd::Failed { message }),
            None => Some(ReadEnd::Read { count: 0 }),
        }
    }
}

/// What a [`Chunk`] holds.
pub enum ChunkText {
    Data { bytes: Seq<u8> },
    Failed { message: Seq<char> },
}

impl View for Chunk {
    type V = ChunkText;

    open spec fn view(&self) -> ChunkText {
        match self {
            Chunk::Data { bytes } => ChunkText::Data { bytes: bytes@ },
            Chunk::Failed { message } => ChunkText::Failed { message: message@ },
        }
    }
}

/// How one read ends: with bytes, none of them at the end of the stream, or
/// with the message of a failure.
pub enum ReadText {
    Bytes { bytes: Seq<u8> },
    Failed { message: Seq<char> },
}

/// How reads into buffers of the sizes `reads` end, when `unread` is left of
/// the current chunk and `chunks` are still to come. A read that finds nothing
/// left receives chunks until it has bytes, until it receives a failure, or
/// until the connection is closed.
pub open spec fn outcomes(unread: Seq<u8>, chunks: Seq<ChunkText>, reads: Seq<nat>) -> Seq<ReadText>
    decreases reads.len(), chunks.len(),
{
    if reads.len() == 0 {
        Seq::empty()
    } else if unread.len() > 0 {
        let taken = read_count(unread, reads[0]) as int;
        seq![ReadText::Bytes { bytes: unread.take(taken) }] + outcomes(
            unread.skip(taken),
            chunks,
            reads.skip(1),
        )
    } else if chunks.len() > 0 {
        match chunks[0] {
            ChunkText::Data { bytes } => outcomes(bytes, chunks.skip(1), reads),
            ChunkText::Failed { message } => seq![ReadText::Failed { message }] + outcomes(
                unread,
                chunks.skip(1),
                reads.skip(1),
            ),
        }
    } else {
        seq![ReadText::Bytes { bytes: Seq::empty() }] + outcomes(unread, chunks, reads.skip(1))
    }
}

/// What passes through a stream: bytes, and failures between them.
pub enum StreamItem {
    Byte { byte: u8 },
    Failure { message: Seq<char> },
}

/// `bytes`, one by one.
pub open spec fn byte_items(bytes: Seq<u8>) -> Seq<StreamItem> {
    bytes.map_values(|byte: u8| StreamItem::Byte { byte })
}

/// What `chunks` hold, one chunk after the other.
pub open spec fn chunk_items(chunks: Seq<ChunkText>) -> Seq<StreamItem>
    decreases chunks.len(),
{
    if chunks.len() == 0 {
        Seq::empty()
    } else {
        (match chunks[0] {
            ChunkText::Data { bytes } => byte_items(bytes),
            ChunkText::Failed { message } => seq![StreamItem::Failure { message }],
        }) + chunk_items(chunks.skip(1))
    }
}

/// What the reads `ends` gave, one read after the other.
pub open spec fn read_items(ends: Seq<ReadText>) -> Seq<StreamItem>
    decreases ends.len(),
{
    if ends.len() == 0 {
        Seq::empty()
    } else {
        (match ends[0] {
            ReadText::Bytes { bytes } => byte_items(bytes),
            ReadText::Failed { message } => seq![StreamItem::Failure { message }],
        }) + read_items(ends.skip(1))
    }
}

/// What a read gives comes before what the later reads give.
proof fn lemma_first_read(end: ReadText, rest: Seq<ReadText>)
    ensures
        read_items(seq![end] + rest) == (match end {
            ReadText::Bytes { bytes } => byte_items(bytes),
            ReadText::Failed { message } => seq![StreamItem::Failure { message }],
        }) + read_items(rest),
{
    assert((seq![end] + rest).skip(1) =~= rest);
}

/// The reader gets what the connection hands on as it is: however the body is
/// cut into chunks, wherever a chunk tells of a failure, and whatever the sizes
/// of the reads, what the reads give is a prefix of what the chunks hold. No
/// byte and no failure is lost, repeated, changed or moved.
pub proof fn law_stream_arrives_in_order(
    unread: Seq<u8>,
    chunks: Seq<ChunkText>,
    reads: Seq<nat>,
)
    ensures
        read_items(outcomes(unread, chunks, reads)).is_prefix_of(
            byte_items(unread) + chunk_items(chunks),
        ),
    decreases reads.len(), chunks.len(),
{
    let all = byte_items(unread) + chunk_items(chunks);
    if reads.len() == 0 {
    } else if unread.len() > 0 {
        let taken = read_count(unread, reads[0]) as int;
        let rest = outcomes(unread.skip(taken), chunks, reads.skip(1));
        law_stream_arrives_in_order(unread.skip(taken), chunks, reads.skip(1));
        lemma_first_read(ReadText::Bytes { bytes: unread.take(taken) }, rest);
        assert(all =~= byte_items(unread.take(taken)) + (byte_items(unread.skip(taken))
            + chunk_items(chunks)));
        assert(byte_items(unread.take(taken)) + read_items(rest) =~= all.take(
            taken + read_items(rest).len(),
        ));
    } else if chunks.len() > 0 {
        match chunks[0] {
            ChunkText::Data { bytes } => {
                law_stream_arrives_in_order(bytes, chunks.skip(1), reads);
                assert(all =~= byte_items(bytes) + chunk_items(chunks.skip(1)));
            },
            ChunkText::Failed { message } => {
                let rest = outcomes(unread, chunks.skip(1), reads.skip(1));
                law_stream_arrives_in_order(unread, chunks.skip(1), reads.skip(1));
                lemma_first_read(ReadText::Failed { message }, rest);
                let first = seq![StreamItem::Failure { message }];
                assert(all =~= first + (byte_items(unread) + chunk_items(chunks.skip(1))));
                assert(first + read_items(rest) =~= all.take(
                    1 + read_items(rest).len() as int,
                ));
            },
        }
    } else {
        let rest = outcomes(unread, chunks, reads.skip(1));
        law_stream_arrives_in_order(unread, chunks, reads.skip(1));
        lemma_first_read(ReadText::Bytes { bytes: Seq::empty() }, rest);
        assert(byte_items(Seq::empty()) + read_items(rest) =~= read_items(rest));
    }
}

/// The reader gets everything if it goes on reading, after a failure too: with
/// a read into a buffer of at least one byte for every byte and every failure,
/// nothing is left.
pub proof fn law_whole_stream_arrives(unread: Seq<u8>, chunks: Seq<ChunkText>, reads: Seq<nat>)
    requires
        forall|i: int| 0 <= i < reads.len() ==> reads[i] > 0,
        reads.len() >= (byte_items(unread) + chunk_items(chunks)).len(),
    ensures
        read_items(outcomes(unread, chunks, reads)) == byte_items(unread) + chunk_items(chunks),
    decreases reads.len(), chunks.len(),
{
    let all = byte_items(unread) + chunk_items(chunks);
    let later = reads.skip(1);
    if reads.len() > 0 {
        assert forall|i: int| 0 <= i < later.len() implies later[i] > 0 by {
            assert(later[i] == reads[i + 1]);
        }
    }
    if reads.len() == 0 {
        assert(all =~= Seq::<StreamItem>::empty());
    } else if unread.len() > 0 {
        let taken = read_count(unread, reads[0]) as int;
        let rest = outcomes(unread.skip(taken), chunks, later);
        lemma_first_read(ReadText::Bytes { bytes: unread.take(taken) }, rest);
        assert(all =~= byte_items(unread.take(taken)) + (byte_items(unread.skip(taken))
            + chunk_items(chunks)));
        law_whole_stream_arrives(unread.skip(taken), chunks, later);
    } else if chunks.len() > 0 {
        match chunks[0] {
            ChunkText::Data { bytes } => {
                assert(all =~= byte_items(bytes) + chunk_items(chunks.skip(1)));
                law_whole_stream_arrives(bytes, chunks.skip(1), reads);
            },
            ChunkText::Failed { message } => {
                let rest = outcomes(unread, chunks.skip(1), later);
                lemma_first_read(ReadText::Failed { message }, rest);
                assert(all =~= seq![StreamItem::Failure { message }] + (byte_items(unread)
                    + chunk_items(chunks.skip(1))));
                law_whole_stream_arrives(unread, chunks.skip(1), later);
            },
        }
    } else {
        assert(all =~= Seq::<StreamItem>::empty());
        law_stream_arrives_in_order(unread, chunks, reads);
    }
}

/// `chunks` as chunks with data.
pub open spec fn data_chunks(chunks: Seq<Seq<u8>>) -> Seq<ChunkText> {
    chunks.map_values(|bytes: Seq<u8>| ChunkText::Data { bytes })
}

/// A failure is reported in its place: all bytes before it arrive, the next
/// read gives its message and nothing else, and the reads after that go on with
/// what comes after it.
pub proof fn law_failure_is_reported_in_place(
    unread: Seq<u8>,
    before: Seq<Seq<u8>>,
    message: Seq<char>,
    after: Seq<ChunkText>,
    reads: Seq<nat>,
)
    requires
        forall|i: int| 0 <= i < reads.len() ==> reads[i] > 0,
        reads.len() > (byte_items(unread) + chunk_items(data_chunks(before))).len(),
    ensures
        ({
            let chunks = data_chunks(before) + seq![ChunkText::Failed { message }] + after;
            let ends = outcomes(unread, chunks, reads);
            exists|count: int|
                {
                    &&& 0 <= count < reads.len()
                    &&& read_items(#[trigger] ends.take(count)) == byte_items(unread)
                        + chunk_items(data_chunks(before))
                    &&& ends[count] == (ReadText::Failed { message })
                    &&& ends.skip(count + 1) == outcomes(
                        Seq::empty(),
                        after,
                        reads.skip(count + 1),
                    )
                }
        }),
    decreases reads.len(), before.len(),
{
    let failed = seq![ChunkText::Failed { message }];
    let chunks = data_chunks(before) + failed + after;
    let ends = outcomes(unread, chunks, reads);
    let all = byte_items(unread) + chunk_items(data_chunks(before));
    let later = reads.skip(1);
    assert forall|i: int| 0 <= i < later.len() implies later[i] > 0 by {
        assert(later[i] == reads[i + 1]);
    }
    if unread.len() > 0 {
        let taken = read_count(unread, reads[0]) as int;
        let first = ReadText::Bytes { bytes: unread.take(taken) };
        let rest = outcomes(unread.skip(taken), chunks, later);
        assert(all =~= byte_items(unread.take(taken)) + (byte_items(unread.skip(taken))
            + chunk_items(data_chunks(before))));
        law_failure_is_reported_in_place(unread.skip(taken), before, message, after, later);
        let n = choose|count: int|
            {
                &&& 0 <= count < later.len()
                &&& read_items(#[trigger] rest.take(count)) == byte_items(unread.skip(taken))
                    + chunk_items(data_chunks(before))
                &&& rest[count] == (ReadText::Failed { message })
                &&& rest.skip(count + 1) == outcomes(Seq::empty(), after, later.skip(count + 1))
            };
        lemma_outcomes_len(unread.skip(taken), chunks, later);
        assert(ends =~= seq![first] + rest);
        assert(ends.take(n + 1) =~= seq![first] + rest.take(n));
        lemma_first_read(first, rest.take(n));
        assert(ends.skip(n + 2) =~= rest.skip(n + 1));
        assert(reads.skip(n + 2) =~= later.skip(n + 1));
        assert(read_items(ends.take(n + 1)) == all);
    } else if before.len() > 0 {
        assert(chunks[0] == (ChunkText::Data { bytes: before[0] }));
        assert(chunks.skip(1) =~= data_chunks(before.skip(1)) + failed + after);
        assert(data_chunks(before).skip(1) =~= data_chunks(before.skip(1)));
        assert(all =~= byte_items(before[0]) + chunk_items(data_chunks(before.skip(1))));
        law_failure_is_reported_in_place(before[0], before.skip(1), message, after, reads);
    } else {
        assert(chunks[0] == failed[0]);
        assert(chunks.skip(1) =~= after);
        assert(unread =~= Seq::<u8>::empty());
        let rest = outcomes(Seq::empty(), after, later);
        assert(ends =~= seq![ReadText::Failed { message }] + rest);
        assert(ends.take(0) =~= Seq::<ReadText>::empty());
        assert(data_chunks(before) =~= Seq::<ChunkText>::empty());
        assert(all =~= Seq::<StreamItem>::empty());
        assert(ends.skip(1) =~= rest);
        assert(read_items(ends.take(0)) == all);
    }
}

/// Every read ends.
proof fn lemma_outcomes_len(unread: Seq<u8>, chunks: Seq<ChunkText>, reads: Seq<nat>)
    ensures
        outcomes(unread, chunks, reads).len() == reads.len(),
    decreases reads.len(), chunks.len(),
{
    if reads.len() == 0 {
    } else if unread.len() > 0 {
        let taken = read_count(unread, reads[0]) as int;
        lemma_outcomes_len(unread.skip(taken), chunks, reads.skip(1));
    } else if chunks.len() > 0 {
        match chunks[0] {
            ChunkText::Data { bytes } => lemma_outcomes_len(bytes, chunks.skip(1), reads),
            ChunkText::Failed { message } => lemma_outcomes_len(
                unread,
                chunks.skip(1),
                reads.skip(1),
            ),
        }
    } else {
        lemma_outcomes_len(unread, chunks, reads.skip(1));
    }
}

/// What is handed to the reader of a body that yields `events`, as long as the
/// reader takes it.
pub open spec fn relayed(events: Seq<BodyEvent>) -> Seq<ChunkText>
    decreases events.len(),
{
    if events.len() == 0 {
        Seq::empty()
    } else {
        match relay_step(events[0]) {
            RelayStep::Send { chunk, last } => seq![chunk@] + if last {
                Seq::empty()
            } else {
                relayed(events.skip(1))
            },
            RelayStep::Skip => relayed(events.skip(1)),
            RelayStep::Stop => Seq::empty(),
        }
    }
}

/// A failure is the last that the reader is handed of a body.
pub proof fn law_failure_ends_the_body(events: Seq<BodyEvent>, index: int)
    requires
        0 <= index < relayed(events).len() - 1,
    ensures
        relayed(events)[index] is Data,
    decreases events.len(),
{
    match relay_step(events[0]) {
        RelayStep::Send { chunk, last } => {
            if index > 0 {
                law_failure_ends_the_body(events.skip(1), index - 1);
            }
        },
        RelayStep::Skip => law_failure_ends_the_body(events.skip(1), index),
        RelayStep::Stop => {},
    }
}

/// What a body holds that yields `events`: the bytes of its data frames, up to
/// its end or its first failure, and that failure.
pub open spec fn body_items(events: Seq<BodyEvent>) -> Seq<StreamItem>
    decreases events.len(),
{
    if events.len() == 0 {
        Seq::empty()
    } else {
        match events[0] {
            BodyEvent::Data { bytes } => byte_items(bytes@) + body_items(events.skip(1)),
            BodyEvent::NoData => body_items(events.skip(1)),
            BodyEvent::Failed { message } => seq![StreamItem::Failure { message: message@ }],
            BodyEvent::End => Seq::empty(),
        }
    }
}

/// What the reader is handed of a body is what the body held: every byte of its
/// data frames before its end or its first failure, in order, and then that
/// failure.
pub proof fn law_body_is_handed_on_whole(events: Seq<BodyEvent>)
    ensures
        chunk_items(relayed(events)) == body_items(events),
    decreases events.len(),
{
    if events.len() > 0 {
        let rest = relayed(events.skip(1));
        law_body_is_handed_on_whole(events.skip(1));
        match relay_step(events[0]) {
            RelayStep::Send { chunk, last } => {
                let tail = if last {
                    Seq::empty()
                } else {
                    rest
                };
                assert((seq![chunk@] + tail).skip(1) =~= tail);
                assert(chunk_items(Seq::empty()) =~= Seq::<StreamItem>::empty());
                assert(chunk_items(relayed(events)) =~= body_items(events));
            },
            _ => {},
        }
    }
}

/// The decoder reads the body of the answer byte for byte, and is told of its
/// failure: with enough reads into buffers of at least one byte, what it reads
/// is what the body held.
pub proof fn law_body_is_read_whole(events: Seq<BodyEvent>, reads: Seq<nat>)
    requires
        forall|i: int| 0 <= i < reads.len() ==> reads[i] > 0,
        reads.len() >= body_items(events).len(),
    ensures
        read_items(outcomes(Seq::empty(), relayed(events), reads)) == body_items(events),
{
    law_body_is_handed_on_whole(events);
    assert(byte_items(Seq::empty()) + chunk_items(relayed(events)) =~= body_items(events));
    law_whole_stream_arrives(Seq::empty(), relayed(events), reads);
}

/// A read takes as much as it can: it stops only where its buffer is full or
/// nothing is left of the chunk.
pub proof fn law_read_takes_what_it_can(unread: Seq<u8>, len: nat)
    ensures
        read_count(unread, len) <= len,
        read_count(unread, len) <= unread.len(),
        read_count(unread, len) == len || read_count(unread, len) == unread.len(),
{
}

/// A call of `relay_frame` passes data on byte for byte and goes on; passes a
/// failure on word for word and ends; passes over what holds no data, and only
/// that; and closes the connection at the end of the body, and only there.
pub proof fn law_relay_frame_passes_all_on(event: BodyEvent, step: RelayStep)
    requires
        call_ensures(relay_frame, (event,), step),
    ensures
        step is Skip <==> event is NoData,
        step is Stop <==> event is End,
        event matches BodyEvent::Data { bytes } ==> (step matches RelayStep::Send {
            chunk: Chunk::Data { bytes: passed },
            last,
        } && passed@ == bytes@ && !last),
        event matches BodyEvent::Failed { message } ==> (step matches RelayStep::Send {
            chunk: Chunk::Failed { message: passed },
            last,
        } && passed@ == message@ && last),
{
}

/// A call of `read` moves bytes from the front of the stream to the front of the
/// buffer, as many as it says and as many as it can: the bytes read and the
/// bytes left are together what there was, and the rest of the buffer is not
/// touched. It reads nothing exactly when there is nothing.
pub proof fn law_read_moves_bytes(count: Option<usize>)
    ensures
        forall|stream: &mut RadioStream, buf: &mut [u8]|
            #[trigger] call_ensures(RadioStream::read, (stream, buf), count) ==> {
                &&& count is None <==> stream@.len() == 0
                &&& final(buf)@.len() == buf@.len()
                &&& count is None ==> final(stream)@ == stream@ && final(buf)@ == buf@
                &&& count matches Some(count) ==> {
                    &&& count <= buf@.len()
                    &&& count == buf@.len() || final(stream)@.len() == 0
                    &&& final(buf)@.take(count as int) + final(stream)@ == stream@
                    &&& final(buf)@.skip(count as int) == buf@.skip(count as int)
                }
            },
{
    assert forall|stream: &mut RadioStream, buf: &mut [u8]|
        #[trigger] call_ensures(RadioStream::read, (stream, buf), count) && stream@.len()
            > 0 implies (count matches Some(count) && {
        &&& count <= buf@.len()
        &&& final(buf)@.take(count as int) + final(stream)@ == stream@
        &&& final(buf)@.skip(count as int) == buf@.skip(count as int)
    }) by {
        let taken = read_count(stream@, buf@.len()) as int;
        assert(buf@.len() == buf.len());
        assert(final(buf)@.take(taken) =~= stream@.take(taken));
        assert(final(buf)@.skip(taken) =~= buf@.skip(taken));
        assert(final(buf)@.take(taken) + final(stream)@ =~= stream@);
    }
}

/// A call of `receive` takes data byte for byte and lets the read go on, and
/// ends the read with the failure word for word, or at the end without bytes;
/// then nothing new is left to read.
pub proof fn law_receive_takes_chunks_as_they_are(chunk: Option<Chunk>, end: Option<ReadEnd>)
    ensures
        forall|stream: &mut RadioStream|
            #[trigger] call_ensures(RadioStream::receive, (stream, chunk), end) ==> match chunk {
                Some(Chunk::Data { bytes }) => end is None && final(stream)@ == bytes@,
                Some(Chunk::Failed { message }) => final(stream)@ == stream@ && (
                end matches Some(ReadEnd::Failed { message: told }) && told@ == message@),
                None => final(stream)@ == stream@ && (end matches Some(ReadEnd::Read { count })
                    && count == 0),
            },
{
}

} // verus!
