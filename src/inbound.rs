//! What the session's reader does with each frame the server sends: text is
//! forwarded onto the inbound stream in receipt order, other frames are
//! dropped, and a transport error ends the stream.

use vstd::prelude::*;

verus! {

/// One item read from the session's connection.
#[derive(Debug, PartialEq, Eq)]
pub enum Frame {
    /// A text frame.
    Text(String),
    /// Any frame that is not text (binary, ping, pong, close).
    Other,
    /// The transport reported a read error.
    Failed,
}

/// What the reader does with a frame.
#[derive(Debug, PartialEq, Eq)]
pub enum ReadAction {
    /// Put this text on the inbound stream.
    Forward(String),
    /// Drop the frame and read on.
    Skip,
    /// End the reader, which closes the inbound stream.
    Stop,
}

/// The texts that reach the inbound stream when the reader meets these
/// frames in order: each text frame's text, up to the first read error.
pub open spec fn forwarded(frames: Seq<Frame>) -> Seq<Seq<char>>
    decreases frames.len(),
{
    if frames.len() == 0 {
        Seq::empty()
    } else {
        match frames[0] {
            Frame::Text(t) => seq![t@] + forwarded(frames.drop_first()),
            Frame::Other => forwarded(frames.drop_first()),
            Frame::Failed => Seq::empty(),
        }
    }
}

/// Whether a read error is among the frames.
pub open spec fn has_failure(frames: Seq<Frame>) -> bool {
    exists|i: int| 0 <= i < frames.len() && frames[i] is Failed
}

/// What one frame adds to the inbound stream when no read error came before.
pub open spec fn frame_out(f: Frame) -> Seq<Seq<char>> {
    match f {
        Frame::Text(t) => seq![t@],
        _ => Seq::empty(),
    }
}

/// What a reader's action puts on the inbound stream.
pub open spec fn emitted(r: ReadAction) -> Seq<Seq<char>> {
    match r {
        ReadAction::Forward(t) => seq![t@],
        _ => Seq::empty(),
    }
}

/// Reading one more frame: it adds its text unless a read error came first.
pub proof fn lemma_forwarded_push(frames: Seq<Frame>, f: Frame)
    ensures
        forwarded(frames.push(f)) == if has_failure(frames) {
            forwarded(frames)
        } else {
            forwarded(frames) + frame_out(f)
        },
    decreases frames.len(),
{
    if frames.len() == 0 {
        assert(frames.push(f).drop_first() =~= Seq::<Frame>::empty());
        assert(frames.push(f)[0] == f);
        assert(!has_failure(frames));
        assert(forwarded(frames) == Seq::<Seq<char>>::empty());
        assert(forwarded(frames.push(f).drop_first()) == Seq::<Seq<char>>::empty());
        if f is Text {
            assert(forwarded(frames.push(f)) =~= Seq::<Seq<char>>::empty() + frame_out(f));
        } else {
            assert(forwarded(frames.push(f)) =~= Seq::<Seq<char>>::empty() + frame_out(f));
        }
    } else {
        let rest = frames.drop_first();
        assert(frames.push(f).drop_first() == rest.push(f));
        assert(frames.push(f)[0] == frames[0]);
        lemma_forwarded_push(rest, f);
        if frames[0] is Failed {
            assert(has_failure(frames));
        } else {
            assert(has_failure(frames) == has_failure(rest)) by {
                if has_failure(rest) {
                    let i = choose|i: int| 0 <= i < rest.len() && rest[i] is Failed;
                    assert(frames[i + 1] == rest[i]);
                }
                if has_failure(frames) {
                    let i = choose|i: int| 0 <= i < frames.len() && frames[i] is Failed;
                    assert(rest[i - 1] == frames[i]);
                }
            }
            if frames[0] is Text {
                let t = frames[0]->Text_0@;
                assert(forwarded(frames) == seq![t] + forwarded(rest));
                assert(forwarded(frames.push(f)) == seq![t] + forwarded(rest.push(f)));
                assert(seq![t] + (forwarded(rest) + frame_out(f)) =~= (seq![t] + forwarded(rest))
                    + frame_out(f));
            } else {
                assert(forwarded(frames) == forwarded(rest));
                assert(forwarded(frames.push(f)) == forwarded(rest.push(f)));
            }
        }
    }
}

/// The session's reader: it takes the frames of one connection in order.
pub struct Reader {
    /// Whether a read error has ended the stream.
    pub stopped: bool,
    /// The frames read so far, in receipt order.
    pub seen: Ghost<Seq<Frame>>,
}

impl Reader {
    pub open spec fn wf(&self) -> bool {
        self.stopped == has_failure(self.seen@)
    }

    /// A reader that has read nothing yet.
    pub fn new() -> (r: Reader)
        ensures
            r.wf(),
            r.seen@ == Seq::<Frame>::empty(),
    {
        Reader { stopped: false, seen: Ghost(Seq::empty()) }
    }

    /// Decides what to do with the next frame: text is forwarded unchanged,
    /// other frames are skipped, and a read error, or any frame after one,
    /// stops the reader. What it forwards, taken over all calls in order, is
    /// exactly `forwarded` of the frames read.
    pub fn on_frame(&mut self, f: Frame) -> (r: ReadAction)
        requires
            old(self).wf(),
        ensures
            final(self).wf(),
            final(self).seen@ == old(self).seen@.push(f),
            forwarded(final(self).seen@) == forwarded(old(self).seen@) + emitted(r),
            old(self).stopped ==> r is Stop,
            !old(self).stopped ==> {
                &&& f matches Frame::Text(t) ==> r matches ReadAction::Forward(u) && u@ == t@
                &&& f is Other ==> r is Skip
                &&& f is Failed ==> r is Stop
            },
    {
        proof {
            lemma_forwarded_push(self.seen@, f);
            assert(has_failure(self.seen@) ==> has_failure(self.seen@.push(f))) by {
                if has_failure(self.seen@) {
                    let i = choose|i: int| 0 <= i < self.seen@.len() && self.seen@[i] is Failed;
                    assert(self.seen@.push(f)[i] == self.seen@[i]);
                }
            }
            assert(f is Failed ==> has_failure(self.seen@.push(f))) by {
                assert(self.seen@.push(f)[self.seen@.len() as int] == f);
            }
            assert(!has_failure(self.seen@) && !(f is Failed) ==> !has_failure(self.seen@.push(f)))
                by {
                if !has_failure(self.seen@) && !(f is Failed) && has_failure(self.seen@.push(f)) {
                    let i = choose|i: int|
                        0 <= i < self.seen@.push(f).len() && self.seen@.push(f)[i] is Failed;
                    if i < self.seen@.len() {
                        assert(self.seen@[i] == self.seen@.push(f)[i]);
                    }
                }
            }
        }
        self.seen = Ghost(self.seen@.push(f));
        if self.stopped {
            return ReadAction::Stop;
        }
        match f {
            Frame::Text(t) => ReadAction::Forward(t),
            Frame::Other => ReadAction::Skip,
            Frame::Failed => {
                self.stopped = true;
                ReadAction::Stop
            },
        }
    }
}

/// Frames that are all text come out on the inbound stream one for one and
/// in the order they were received.
pub proof fn lemma_text_frames_kept_in_order(frames: Seq<Frame>)
    requires
        forall|i: int| 0 <= i < frames.len() ==> frames[i] is Text,
    ensures
        forwarded(frames).len() == frames.len(),
        forall|i: int| 0 <= i < frames.len() ==> forwarded(frames)[i] == (#[trigger] frames[i])->Text_0@,
    decreases frames.len(),
{
    if frames.len() > 0 {
        let rest = frames.drop_first();
        assert forall|i: int| 0 <= i < rest.len() implies rest[i] is Text by {
            assert(rest[i] == frames[i + 1]);
        }
        lemma_text_frames_kept_in_order(rest);
        assert forall|i: int| 0 <= i < frames.len() implies forwarded(frames)[i] == (
        #[trigger] frames[i])->Text_0@ by {
            if i > 0 {
                assert(frames[i] == rest[i - 1]);
            }
        }
    }
}

/// Frames that are not text are dropped without disturbing the order of
/// the others: the stream gets the same texts as if they had not been sent.
pub proof fn lemma_other_frames_dropped(before: Seq<Frame>, after: Seq<Frame>)
    ensures
        forwarded(before + seq![Frame::Other] + after) == forwarded(before + after),
    decreases before.len(),
{
    if before.len() == 0 {
        assert(before + seq![Frame::Other] + after == seq![Frame::Other] + after);
        assert((seq![Frame::Other] + after).drop_first() == after);
        assert(before + after == after);
    } else {
        lemma_other_frames_dropped(before.drop_first(), after);
        assert((before + seq![Frame::Other] + after).drop_first() == before.drop_first() + seq![
            Frame::Other,
        ] + after);
        assert((before + after).drop_first() == before.drop_first() + after);
        assert((before + seq![Frame::Other] + after)[0] == before[0]);
        assert((before + after)[0] == before[0]);
    }
}

/// Nothing received after a read error reaches the inbound stream.
pub proof fn lemma_error_ends_stream(before: Seq<Frame>, after: Seq<Frame>)
    ensures
        forwarded(before + seq![Frame::Failed] + after) == forwarded(before + seq![Frame::Failed]),
    decreases before.len(),
{
    if before.len() == 0 {
        assert(before + seq![Frame::Failed] + after == seq![Frame::Failed] + after);
        assert(before + seq![Frame::Failed] == seq![Frame::Failed]);
    } else {
        lemma_error_ends_stream(before.drop_first(), after);
        assert((before + seq![Frame::Failed] + after).drop_first() == before.drop_first() + seq![
            Frame::Failed,
        ] + after);
        assert((before + seq![Frame::Failed]).drop_first() == before.drop_first() + seq![
            Frame::Failed,
        ]);
        assert((before + seq![Frame::Failed] + after)[0] == before[0]);
        assert((before + seq![Frame::Failed])[0] == before[0]);
    }
}

} // verus!
