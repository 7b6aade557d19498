//! Decodes the body of a streamed response: bytes are cut into lines, and the
//! lines that are data frames give up their payload.
//!
//! A line ends at a line feed; a carriage return just before it belongs to the
//! terminator. Bytes that no line feed has followed yet are an unfinished line,
//! and an unfinished line is never emitted: when the stream ends, it is dropped.

use crate::error::AssistError;
use crate::message::OpenAIResponseStreamEvent;
use vstd::prelude::*;
use vstd::slice::*;

verus! {

/// The byte that ends a line.
pub const LINE_FEED: u8 = 10;

/// The byte that may precede the line feed.
pub const CARRIAGE_RETURN: u8 = 13;

/// The prefix of a data frame: `data: `, with its space.
pub open spec fn data_prefix() -> Seq<u8> {
    seq![100u8, 97u8, 116u8, 97u8, 58u8, 32u8]
}

/// The bytes behind the last line feed: the line that is not finished yet.
pub open spec fn unfinished_tail(bytes: Seq<u8>) -> Seq<u8>
    decreases bytes.len(),
{
    if bytes.len() == 0 || bytes.last() == LINE_FEED {
        Seq::empty()
    } else {
        unfinished_tail(bytes.drop_last()).push(bytes.last())
    }
}

/// A line without the carriage return that ends it, if one does.
pub open spec fn without_carriage_return(line: Seq<u8>) -> Seq<u8> {
    if line.len() > 0 && line.last() == CARRIAGE_RETURN {
        line.drop_last()
    } else {
        line
    }
}

/// The finished lines of `bytes`, in order and without their terminators. Each
/// line feed finishes the line that the bytes before it had left open.
pub open spec fn complete_lines(bytes: Seq<u8>) -> Seq<Seq<u8>>
    decreases bytes.len(),
{
    if bytes.len() == 0 {
        Seq::empty()
    } else if bytes.last() == LINE_FEED {
        complete_lines(bytes.drop_last()).push(
            without_carriage_return(unfinished_tail(bytes.drop_last())),
        )
    } else {
        complete_lines(bytes.drop_last())
    }
}

/// A line is a data frame when it begins with the prefix, whatever follows.
pub open spec fn is_data_line(line: Seq<u8>) -> bool {
    line.len() >= 6 && line.take(6) == data_prefix()
}

/// The payloads of the data frames among `lines`, in order. A line of any
/// other form leaves no trace.
pub open spec fn data_payloads(lines: Seq<Seq<u8>>) -> Seq<Seq<u8>>
    decreases lines.len(),
{
    if lines.len() == 0 {
        Seq::empty()
    } else if is_data_line(lines.last()) {
        data_payloads(lines.drop_last()).push(lines.last().skip(6))
    } else {
        data_payloads(lines.drop_last())
    }
}

/// The payloads of all data frames that `bytes` holds complete.
pub open spec fn data_frames(bytes: Seq<u8>) -> Seq<Seq<u8>> {
    data_payloads(complete_lines(bytes))
}

/// The payload of `line` if it is a data frame: what follows the prefix, as it
/// stands. Any other line, an empty one too, gives `None`.
pub fn data_payload(line: &[u8]) -> (payload: Option<&[u8]>)
    ensures
        payload is Some <==> is_data_line(line@),
        payload matches Some(p) ==> p@ == line@.skip(6),
{
    if line.len() < 6 {
        return None;
    }
    if line[0] == 100 && line[1] == 97 && line[2] == 116 && line[3] == 97 && line[4] == 58
        && line[5] == 32 {
        assert(line@.take(6) =~= data_prefix());
        assert(line@.subrange(6, line@.len() as int) =~= line@.skip(6));
        Some(slice_subrange(line, 6, line.len()))
    } else {
        assert(line@.take(6)[0] == line@[0]);
        assert(line@.take(6)[1] == line@[1]);
        assert(line@.take(6)[2] == line@[2]);
        assert(line@.take(6)[3] == line@[3]);
        assert(line@.take(6)[4] == line@[4]);
        assert(line@.take(6)[5] == line@[5]);
        None
    }
}

/// The payloads as sequences of bytes.
pub open spec fn payload_views(frames: Seq<Vec<u8>>) -> Seq<Seq<u8>> {
    frames.map_values(|frame: Vec<u8>| frame@)
}

/// None of the bytes is a line feed.
pub open spec fn no_line_feed(bytes: Seq<u8>) -> bool {
    forall|i: int| 0 <= i < bytes.len() ==> bytes[i] != LINE_FEED
}

/// Bytes without a line feed are one unfinished line: no line is complete, and
/// all of them are kept.
pub proof fn unfinished_line_alone(bytes: Seq<u8>)
    requires
        no_line_feed(bytes),
    ensures
        unfinished_tail(bytes) == bytes,
        complete_lines(bytes) == Seq::<Seq<u8>>::empty(),
    decreases bytes.len(),
{
    if bytes.len() > 0 {
        unfinished_line_alone(bytes.drop_last());
        assert(bytes.drop_last().push(bytes.last()) =~= bytes);
    }
}

/// The unfinished line holds no line feed.
pub proof fn unfinished_tail_has_no_line_feed(bytes: Seq<u8>)
    ensures
        no_line_feed(unfinished_tail(bytes)),
    decreases bytes.len(),
{
    if bytes.len() > 0 && bytes.last() != LINE_FEED {
        unfinished_tail_has_no_line_feed(bytes.drop_last());
    }
}

/// A line feed finishes the line before it: the bytes of one line, followed by
/// a line feed, are that one line, and nothing is left open.
pub proof fn line_feed_completes_line(line: Seq<u8>)
    requires
        no_line_feed(line),
    ensures
        complete_lines(line.push(LINE_FEED)) == seq![without_carriage_return(line)],
        unfinished_tail(line.push(LINE_FEED)) == Seq::<u8>::empty(),
{
    unfinished_line_alone(line);
    assert(line.push(LINE_FEED).drop_last() =~= line);
    assert(Seq::<Seq<u8>>::empty().push(without_carriage_return(line)) =~= seq![
        without_carriage_return(line),
    ]);
}

/// The payloads of two runs of lines, one after the other, are the payloads of
/// the first run and then those of the second.
pub proof fn data_payloads_of_concatenation(first: Seq<Seq<u8>>, second: Seq<Seq<u8>>)
    ensures
        data_payloads(first + second) == data_payloads(first) + data_payloads(second),
    decreases second.len(),
{
    if second.len() == 0 {
        assert(first + second =~= first);
        assert(data_payloads(first) + data_payloads(second) =~= data_payloads(first));
    } else {
        data_payloads_of_concatenation(first, second.drop_last());
        assert((first + second).drop_last() =~= first + second.drop_last());
        assert((first + second).last() == second.last());
        assert(data_payloads(first + second) =~= data_payloads(first) + data_payloads(second));
    }
}

/// How the stream is cut into pieces makes no difference. Decoding two pieces
/// in turn, the second together with the line that the first left open, gives
/// the lines, the data frames and the open line that decoding both at once
/// gives, and in the same order.
pub proof fn decoding_piecewise(first: Seq<u8>, second: Seq<u8>)
    ensures
        unfinished_tail(first + second) == unfinished_tail(unfinished_tail(first) + second),
        complete_lines(first + second) == complete_lines(first) + complete_lines(
            unfinished_tail(first) + second,
        ),
        data_frames(first + second) == data_frames(first) + data_frames(
            unfinished_tail(first) + second,
        ),
    decreases second.len(),
{
    let carried = unfinished_tail(first);
    if second.len() == 0 {
        assert(first + second =~= first);
        assert(carried + second =~= carried);
        unfinished_tail_has_no_line_feed(first);
        unfinished_line_alone(carried);
        assert(complete_lines(first) + complete_lines(carried) =~= complete_lines(first));
    } else {
        decoding_piecewise(first, second.drop_last());
        assert((first + second).drop_last() =~= first + second.drop_last());
        assert((carried + second).drop_last() =~= carried + second.drop_last());
        assert((first + second).last() == second.last());
        assert((carried + second).last() == second.last());
        assert(complete_lines(first + second) =~= complete_lines(first) + complete_lines(
            carried + second,
        ));
    }
    data_payloads_of_concatenation(complete_lines(first), complete_lines(carried + second));
}

/// What to do after a read of the body.
#[derive(Clone, Debug, PartialEq, Eq)]
pub enum NextRead {
    /// Read again.
    Continue,
    /// The stream has ended. The line that it left open is dropped.
    Close,
    /// Reading failed. The failure is delivered as the last item.
    Fail(AssistError),
}

/// What one read of the body amounts to: the payloads of the data frames that
/// it finished, and what to do next.
#[derive(Clone, Debug, PartialEq, Eq)]
pub struct ReadStep {
    pub frames: Vec<Vec<u8>>,
    pub next: NextRead,
}

/// The decoder of one response body. It is fed the body piece by piece, as the
/// pieces arrive, and keeps the line that the pieces so far have left open.
pub struct FrameDecoder {
    pending: Vec<u8>,
    received: Ghost<Seq<u8>>,
}

impl FrameDecoder {
    /// All the bytes that the decoder has been fed, from the first.
    pub closed spec fn received(&self) -> Seq<u8> {
        self.received@
    }

    /// The bytes of the line that is not finished yet.
    pub closed spec fn pending(&self) -> Seq<u8> {
        self.pending@
    }

    #[verifier::type_invariant]
    spec fn keeps_the_open_line(&self) -> bool {
        self.pending@ == unfinished_tail(self.received@)
    }

    /// A decoder that has seen nothing.
    pub fn new() -> (decoder: FrameDecoder)
        ensures
            decoder.received() == Seq::<u8>::empty(),
            decoder.pending() == Seq::<u8>::empty(),
    {
        FrameDecoder { pending: Vec::new(), received: Ghost(Seq::empty()) }
    }

    /// The bytes of the unfinished line, for a caller that wants to see what
    /// the end of the stream drops: all that came behind the last line feed.
    pub fn unfinished(&self) -> (bytes: &[u8])
        ensures
            bytes@ == self.pending(),
            bytes@ == unfinished_tail(self.received()),
    {
        proof {
            use_type_invariant(self);
        }
        self.pending.as_slice()
    }

    /// Takes the next piece of the body and returns the payloads of the data
    /// frames that it finishes, in the order of their arrival. The bytes behind
    /// its last line feed are kept for the next piece. Over the whole stream the
    /// pieces give the data frames of the bytes received, each once, however the
    /// stream was cut.
    pub fn feed(&mut self, chunk: &[u8]) -> (frames: Vec<Vec<u8>>)
        ensures
            final(self).received() == old(self).received() + chunk@,
            final(self).pending() == unfinished_tail(final(self).received()),
            final(self).pending() == unfinished_tail(old(self).pending() + chunk@),
            payload_views(frames@) == data_frames(old(self).pending() + chunk@),
            data_frames(final(self).received()) == data_frames(old(self).received())
                + payload_views(frames@),
    {
        let mut taken = FrameDecoder::new();
        core::mem::swap(self, &mut taken);
        proof {
            use_type_invariant(&taken);
        }
        let ghost earlier = taken.received@;
        let ghost before = taken.pending@;
        let mut line: Vec<u8> = taken.pending;
        let mut frames: Vec<Vec<u8>> = Vec::new();
        let mut i: usize = 0;
        proof {
            unfinished_tail_has_no_line_feed(earlier);
            unfinished_line_alone(before);
            assert(before + chunk@.take(0) =~= before);
            assert(payload_views(frames@) =~= Seq::<Seq<u8>>::empty());
        }
        while i < chunk.len()
            invariant
                i <= chunk.len(),
                line@ == unfinished_tail(before + chunk@.take(i as int)),
                payload_views(frames@) == data_frames(before + chunk@.take(i as int)),
            decreases chunk.len() - i,
        {
            let byte = chunk[i];
            proof {
                let seen = before + chunk@.take(i as int);
                let next = before + chunk@.take(i + 1);
                assert(next =~= seen.push(byte));
                assert(next.drop_last() =~= seen);
                if byte == LINE_FEED {
                    let finished = without_carriage_return(unfinished_tail(seen));
                    let lines = complete_lines(seen).push(finished);
                    assert(complete_lines(next) == lines);
                    assert(lines.drop_last() =~= complete_lines(seen));
                    assert(lines.last() == finished);
                }
            }
            if byte == LINE_FEED {
                let len: usize = line.len();
                if len > 0 && line[len - 1] == CARRIAGE_RETURN {
                    line.pop();
                }
                match data_payload(line.as_slice()) {
                    Some(payload) => {
                        let owned = slice_to_vec(payload);
                        proof {
                            assert(payload_views(frames@.push(owned)) =~= payload_views(
                                frames@,
                            ).push(owned@));
                        }
                        frames.push(owned);
                    },
                    None => {},
                }
                line = Vec::new();
            } else {
                line.push(byte);
            }
            i = i + 1;
        }
        proof {
            assert(chunk@.take(i as int) =~= chunk@);
            decoding_piecewise(earlier, chunk@);
        }
        *self = FrameDecoder { pending: line, received: Ghost(earlier + chunk@) };
        frames
    }

    /// Takes what one read of the body gave: some bytes, no bytes at the end of
    /// the stream, or the reason why reading failed. Bytes are decoded and more
    /// are asked for. The end of the stream and a failure finish no frame and
    /// leave the decoder as it is; the end of input is the only signal that the
    /// stream has ended.
    pub fn accept(&mut self, read: Result<&[u8], String>) -> (step: ReadStep)
        ensures
            match read {
                Ok(bytes) => {
                    &&& final(self).received() == old(self).received() + bytes@
                    &&& final(self).pending() == unfinished_tail(final(self).received())
                    &&& payload_views(step.frames@) == data_frames(old(self).pending() + bytes@)
                    &&& data_frames(final(self).received()) == data_frames(old(self).received())
                        + payload_views(step.frames@)
                    &&& bytes@.len() == 0 ==> step.frames@.len() == 0
                    &&& step.next == (if bytes@.len() == 0 {
                        NextRead::Close
                    } else {
                        NextRead::Continue
                    })
                },
                Err(reason) => {
                    &&& *final(self) == *old(self)
                    &&& step.frames@.len() == 0
                    &&& step.next == NextRead::Fail(AssistError::Transport(reason))
                },
            },
    {
        match read {
            Ok(bytes) => {
                proof {
                    use_type_invariant(&*self);
                    unfinished_tail_has_no_line_feed(self.received@);
                    unfinished_line_alone(self.pending@);
                    assert(self.pending@ + Seq::<u8>::empty() =~= self.pending@);
                }
                let frames = self.feed(bytes);
                proof {
                    if bytes@.len() == 0 {
                        assert(bytes@ =~= Seq::<u8>::empty());
                        assert(payload_views(frames@).len() == 0);
                    }
                }
                let next = if bytes.len() == 0 {
                    NextRead::Close
                } else {
                    NextRead::Continue
                };
                ReadStep { frames, next }
            },
            Err(reason) => ReadStep {
                frames: Vec::new(),
                next: NextRead::Fail(AssistError::Transport(reason)),
            },
        }
    }
}

/// What the decoder delivers, in the order of arrival: the event that a data
/// frame decodes to, or a failure. A frame that does not decode is delivered as
/// a failure of its own, and the frames after it are still delivered.
#[derive(Clone, Debug, PartialEq, Eq)]
pub enum StreamItem {
    Event(OpenAIResponseStreamEvent),
    Failure(AssistError),
}

/// The item for one data frame, given what decoding its payload gave: the
/// event, or the failure to decode with its reason.
pub fn frame_item(decoded: Result<OpenAIResponseStreamEvent, String>) -> (item: StreamItem)
    ensures
        item == (match decoded {
            Ok(event) => StreamItem::Event(event),
            Err(reason) => StreamItem::Failure(AssistError::FrameDecode(reason)),
        }),
{
    match decoded {
        Ok(event) => StreamItem::Event(event),
        Err(reason) => StreamItem::Failure(AssistError::FrameDecode(reason)),
    }
}

/// Decodes a body that is at hand as a whole: the payloads of its data frames,
/// in order. A last line that no line feed ends is dropped.
pub fn decode_body(body: &[u8]) -> (frames: Vec<Vec<u8>>)
    ensures
        payload_views(frames@) == data_frames(body@),
{
    let mut decoder = FrameDecoder::new();
    let frames = decoder.feed(body);
    proof {
        assert(Seq::<u8>::empty() + body@ =~= body@);
    }
    frames
}

} // verus!
