//! Response bodies, and the reading of the body of a refusal.

use crate::http_client::error::{reports_status, retry_after_of, status_error, Error};
use crate::http_client::headers::{header_entries, Entries};
use crate::http_client::status::StatusCode;
use crate::http_client::text::{
    bounded, from_utf8_lossy, law_short_text_is_unchanged, utf8_lossy, utf8_mended,
    MAX_ERROR_MESSAGE_BYTES,
};
use vstd::prelude::*;
use vstd::utf8::{
    decode_utf8, encode_utf8, encode_utf8_decode_utf8, encode_utf8_valid_utf8, valid_utf8,
};

verus! {

/// The text of a response body, with what is not UTF-8 replaced.
pub fn text(body: Result<Vec<u8>, Error>) -> (r: Result<String, Error>)
    ensures
        match (body, r) {
            (Ok(bytes), Ok(text)) => text@ == utf8_lossy(bytes@),
            (Err(error), Err(same)) => same == error,
            _ => false,
        },
        body matches Ok(bytes) ==> {
            r matches Ok(text) && text@ == if valid_utf8(bytes@) {
                decode_utf8(bytes@)
            } else {
                utf8_mended(bytes@)
            }
        },
{
    match body {
        Ok(bytes) => Ok(from_utf8_lossy(bytes.as_slice())),
        Err(error) => Err(error),
    }
}

/// What the stream of a response body yields next.
pub enum ChunkEvent {
    /// The next bytes.
    Chunk(Vec<u8>),
    /// Reading failed, with what the failure says of itself.
    Failed(String),
    /// There is no more.
    End,
}

/// The body of a refusal as far as it has been read: fewer bytes than an error keeps.
pub struct ErrorBody {
    status: StatusCode,
    headers: http::HeaderMap<http::HeaderValue>,
    read: Vec<u8>,
}

/// How the reading of the body of a refusal goes on.
pub enum Progress {
    /// More is to be read.
    Reading(ErrorBody),
    /// The error that the refusal comes to.
    Finished(Error),
}

/// What the stream of a response body yields next.
pub enum ChunkView {
    Chunk(Seq<u8>),
    Failed(Seq<char>),
    End,
}

impl View for ChunkEvent {
    type V = ChunkView;

    open spec fn view(&self) -> ChunkView {
        match self {
            ChunkEvent::Chunk(bytes) => ChunkView::Chunk(bytes@),
            ChunkEvent::Failed(reason) => ChunkView::Failed(reason@),
            ChunkEvent::End => ChunkView::End,
        }
    }
}

/// What becomes of the bytes read so far with what comes next: more bytes to go on with, or the
/// message to end with.
pub enum Outcome {
    More(Seq<u8>),
    Message(Seq<char>),
}

/// The first bytes, as many as an error keeps.
pub open spec fn kept_bytes(bytes: Seq<u8>) -> Seq<u8> {
    if bytes.len() <= MAX_ERROR_MESSAGE_BYTES {
        bytes
    } else {
        bytes.take(MAX_ERROR_MESSAGE_BYTES as int)
    }
}

/// What comes of an event. Reading ends when the body does, when no more bytes are kept, or when it
/// fails; a failure is the message only where nothing was read.
pub open spec fn next_outcome(read: Seq<u8>, event: ChunkView) -> Outcome {
    match event {
        ChunkView::Chunk(bytes) => if (read + bytes).len() < MAX_ERROR_MESSAGE_BYTES {
            Outcome::More(read + bytes)
        } else {
            Outcome::Message(utf8_lossy(kept_bytes(read + bytes)))
        },
        ChunkView::Failed(reason) => if read.len() == 0 {
            Outcome::Message("failed to read error response body: "@ + reason)
        } else {
            Outcome::Message(utf8_lossy(read))
        },
        ChunkView::End => Outcome::Message(utf8_lossy(read)),
    }
}

/// `progress` is what comes of an event: more bytes of the same refusal, or the error that reports
/// it.
pub open spec fn follows(body: ErrorBody, event: ChunkView, progress: Progress) -> bool {
    match (next_outcome(body.read(), event), progress) {
        (Outcome::More(read), Progress::Reading(next)) => {
            &&& next.status() == body.status()
            &&& next.entries() == body.entries()
            &&& next.read() == read
        },
        (Outcome::Message(message), Progress::Finished(error)) => reports_status(
            error,
            body.status(),
            body.entries(),
            message,
        ),
        _ => false,
    }
}

impl ErrorBody {
    /// The status of the refusal.
    pub closed spec fn status(self) -> StatusCode {
        self.status
    }

    /// The headers of the refusal.
    pub closed spec fn entries(self) -> Entries {
        header_entries(self.headers)
    }

    /// The bytes read so far.
    pub closed spec fn read(self) -> Seq<u8> {
        self.read@
    }

    #[verifier::type_invariant]
    closed spec fn has_room(self) -> bool {
        self.read@.len() < MAX_ERROR_MESSAGE_BYTES
    }

    /// A refusal of whose body nothing has been read.
    pub fn new(status: StatusCode, headers: http::HeaderMap<http::HeaderValue>) -> (body: ErrorBody)
        ensures
            body.status() == status,
            body.entries() == header_entries(headers),
            body.read() == Seq::<u8>::empty(),
    {
        ErrorBody { status, headers, read: Vec::new() }
    }

    /// Takes in what the stream yields next.
    pub fn on_event(self, event: ChunkEvent) -> (progress: Progress)
        ensures
            follows(self, event@, progress),
            match event {
                ChunkEvent::Chunk(bytes) => self.read().len() + bytes@.len() < 8192 ==> {
                    progress matches Progress::Reading(next) && next.read() == self.read() + bytes@
                        && next.status() == self.status() && next.entries() == self.entries()
                },
                _ => progress is Finished,
            },
            progress matches Progress::Reading(_) ==> {
                event matches ChunkEvent::Chunk(bytes) && self.read().len() + bytes@.len() < 8192
            },
            progress matches Progress::Finished(error) ==> {
                error matches Error::Status { status, retry_after_secs, .. } && status
                    == self.status() && retry_after_secs == retry_after_of(self.entries())
            },
    {
        proof {
            use_type_invariant(&self);
        }
        let ErrorBody { status, headers, mut read } = self;
        match event {
            ChunkEvent::Chunk(bytes) => {
                let ghost before = read@;
                let remaining = MAX_ERROR_MESSAGE_BYTES - read.len();
                let mut bytes = bytes;
                let ghost whole = bytes@;
                if bytes.len() > remaining {
                    bytes.truncate(remaining);
                }
                read.append(&mut bytes);
                assert(read@ =~= kept_bytes(before + whole));
                if read.len() == MAX_ERROR_MESSAGE_BYTES {
                    Progress::Finished(
                        status_error(status, &headers, from_utf8_lossy(read.as_slice())),
                    )
                } else {
                    Progress::Reading(ErrorBody { status, headers, read })
                }
            },
            ChunkEvent::Failed(reason) => {
                if read.len() == 0 {
                    let mut message = "failed to read error response body: ".to_owned();
                    message.append(reason.as_str());
                    Progress::Finished(status_error(status, &headers, message))
                } else {
                    Progress::Finished(
                        status_error(status, &headers, from_utf8_lossy(read.as_slice())),
                    )
                }
            },
            ChunkEvent::End => Progress::Finished(
                status_error(status, &headers, from_utf8_lossy(read.as_slice())),
            ),
        }
    }
}

/// The message that a refusal comes to once its body has yielded `events` after the bytes read so
/// far, if reading has ended by then.
pub open spec fn message_of(read: Seq<u8>, events: Seq<ChunkView>) -> Option<Seq<char>>
    decreases events.len(),
{
    if events.len() == 0 {
        None
    } else {
        match next_outcome(read, events[0]) {
            Outcome::More(longer) => message_of(longer, events.drop_first()),
            Outcome::Message(message) => Some(message),
        }
    }
}

/// Each body came of the one before it with the event between them, and the error came of the last.
pub open spec fn ends_in(bodies: Seq<ErrorBody>, events: Seq<ChunkView>, error: Error) -> bool {
    &&& bodies.len() == events.len() > 0
    &&& forall|i: int|
        0 <= i < bodies.len() - 1 ==> follows(
            #[trigger] bodies[i],
            events[i],
            Progress::Reading(bodies[i + 1]),
        )
    &&& follows(bodies.last(), events.last(), Progress::Finished(error))
}

/// However its body is read, a refusal is reported with the status it had, the delay that its
/// headers asked for and the message that the events come to.
pub proof fn law_refusal_is_reported(
    bodies: Seq<ErrorBody>,
    events: Seq<ChunkView>,
    error: Error,
)
    requires
        ends_in(bodies, events, error),
    ensures
        message_of(bodies[0].read(), events) matches Some(message) && reports_status(
            error,
            bodies[0].status(),
            bodies[0].entries(),
            message,
        ),
    decreases bodies.len(),
{
    if bodies.len() > 1 {
        let later = bodies.drop_first();
        assert(follows(bodies[0], events[0], Progress::Reading(bodies[1])));
        assert forall|i: int| 0 <= i < later.len() - 1 implies follows(
            #[trigger] later[i],
            events.drop_first()[i],
            Progress::Reading(later[i + 1]),
        ) by {
            assert(later[i] == bodies[i + 1]);
        }
        law_refusal_is_reported(later, events.drop_first(), error);
    }
}

/// Chunks followed by one more event.
pub open spec fn chunks_and(chunks: Seq<Seq<u8>>, last: ChunkView) -> Seq<ChunkView> {
    Seq::new(chunks.len(), |i: int| ChunkView::Chunk(chunks[i])).push(last)
}

/// Where the bytes of all the chunks are fewer than an error keeps, what follows them decides;
/// otherwise the first bytes do.
proof fn lemma_message_of_chunks(read: Seq<u8>, chunks: Seq<Seq<u8>>, last: ChunkView)
    requires
        read.len() < MAX_ERROR_MESSAGE_BYTES,
    ensures
        ({
            let all = read + chunks.flatten();
            message_of(read, chunks_and(chunks, last)) == if all.len() < MAX_ERROR_MESSAGE_BYTES {
                message_of(all, seq![last])
            } else {
                Some(utf8_lossy(kept_bytes(all)))
            }
        }),
    decreases chunks.len(),
{
    let events = chunks_and(chunks, last);
    if chunks.len() == 0 {
        assert(chunks.flatten() =~= Seq::<u8>::empty());
        assert(read + chunks.flatten() =~= read);
        assert(events =~= seq![last]);
    } else {
        let longer = read + chunks[0];
        let rest = chunks.drop_first();
        assert(chunks.flatten() == chunks[0] + rest.flatten());
        assert(read + chunks.flatten() =~= longer + rest.flatten());
        assert(events.drop_first() =~= chunks_and(rest, last));
        if longer.len() < MAX_ERROR_MESSAGE_BYTES {
            lemma_message_of_chunks(longer, rest, last);
        } else {
            assert(kept_bytes(longer) =~= kept_bytes(longer + rest.flatten()));
        }
    }
}

/// However the body of a refusal is cut into chunks, the message is the text of its first bytes.
pub proof fn law_message_is_the_start_of_the_body(chunks: Seq<Seq<u8>>)
    ensures
        message_of(Seq::empty(), chunks_and(chunks, ChunkView::End)) == Some(
            utf8_lossy(kept_bytes(chunks.flatten())),
        ),
{
    let all = chunks.flatten();
    lemma_message_of_chunks(Seq::empty(), chunks, ChunkView::End);
    assert(Seq::<u8>::empty() + all =~= all);
    reveal_with_fuel(message_of, 2);
}

/// A body that breaks off after some bytes is reported by those; one that cannot be read at all, by
/// the failure.
pub proof fn law_failure_is_told_only_without_a_body(chunks: Seq<Seq<u8>>, reason: Seq<char>)
    ensures
        message_of(Seq::empty(), chunks_and(chunks, ChunkView::Failed(reason))) == Some(
            if chunks.flatten().len() == 0 {
                "failed to read error response body: "@ + reason
            } else {
                utf8_lossy(kept_bytes(chunks.flatten()))
            },
        ),
{
    let all = chunks.flatten();
    lemma_message_of_chunks(Seq::empty(), chunks, ChunkView::Failed(reason));
    assert(Seq::<u8>::empty() + all =~= all);
    reveal_with_fuel(message_of, 2);
}

/// A body of text that an error can keep whole is the message, to the last character.
pub proof fn law_short_body_is_told_in_full(text: Seq<char>, chunks: Seq<Seq<u8>>)
    requires
        chunks.flatten() == encode_utf8(text),
        encode_utf8(text).len() <= MAX_ERROR_MESSAGE_BYTES,
    ensures
        message_of(Seq::empty(), chunks_and(chunks, ChunkView::End)) == Some(text),
        bounded(text, MAX_ERROR_MESSAGE_BYTES as int) == text,
{
    law_message_is_the_start_of_the_body(chunks);
    law_short_text_is_unchanged(text, MAX_ERROR_MESSAGE_BYTES as int);
    encode_utf8_valid_utf8(text);
    encode_utf8_decode_utf8(text);
}

/// An event is what it holds.
pub proof fn law_events_stand_for_what_they_hold(bytes: Vec<u8>, reason: String)
    ensures
        ChunkEvent::Chunk(bytes)@ == ChunkView::Chunk(bytes@),
        ChunkEvent::Failed(reason)@ == ChunkView::Failed(reason@),
        ChunkEvent::End@ == ChunkView::End,
{
}

/// The first 8192 bytes, or all where they are fewer, decide the message of a body that has been
/// read to its end: it is the text that they write, or what is made of them where they write none.
/// Where there are that many, it makes no difference what comes behind them.
pub proof fn law_first_bytes_decide_the_message(chunks: Seq<Seq<u8>>, last: ChunkView)
    requires
        last is End || chunks.flatten().len() >= 8192,
    ensures
        ({
            let all = chunks.flatten();
            let front = if all.len() < 8192 {
                all
            } else {
                all.take(8192)
            };
            message_of(Seq::empty(), chunks_and(chunks, last)) matches Some(message) && {
                &&& valid_utf8(front) ==> message == decode_utf8(front)
                &&& !valid_utf8(front) ==> message == utf8_mended(front)
            }
        }),
{
    let all = chunks.flatten();
    lemma_message_of_chunks(Seq::empty(), chunks, last);
    assert(Seq::<u8>::empty() + all =~= all);
    assert(all.len() == 8192 ==> all.take(8192) =~= all);
    reveal_with_fuel(message_of, 2);
}

/// A body that breaks off after its first bytes, fewer than 8192, tells what one tells that ends
/// there. Where it breaks off before the first byte, it tells of the failure alone.
pub proof fn law_broken_body_tells_what_was_read(chunks: Seq<Seq<u8>>, reason: Seq<char>)
    ensures
        chunks.flatten().len() > 0 ==> message_of(
            Seq::empty(),
            chunks_and(chunks, ChunkView::Failed(reason)),
        ) == message_of(Seq::empty(), chunks_and(chunks, ChunkView::End)),
        chunks.flatten().len() == 0 ==> message_of(
            Seq::empty(),
            chunks_and(chunks, ChunkView::Failed(reason)),
        ) == Some("failed to read error response body: "@ + reason),
{
    law_message_is_the_start_of_the_body(chunks);
    law_failure_is_told_only_without_a_body(chunks, reason);
}

} // verus!
