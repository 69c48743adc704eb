//! The line-delimited record decoder.
//!
//! A streamed chat response arrives as arbitrary byte chunks.  Records are
//! the non-blank lines of the stream, and a record only exists once its
//! terminating line feed has been observed: an unterminated tail is carried
//! over to the next chunk, never parsed early.  Which records come out
//! depends only on the byte stream itself, never on how the transport
//! happened to chunk it; see [`lemma_fragmentation_immaterial`].

use vstd::prelude::*;

verus! {

/// ASCII whitespace other than the line feed itself: a line made of these
/// alone is blank and yields no record.
pub open spec fn is_ws_byte(b: u8) -> bool {
    b == 32 || b == 9 || b == 13 || b == 11 || b == 12
}

pub open spec fn is_blank(l: Seq<u8>) -> bool {
    forall|i: int| 0 <= i < l.len() ==> is_ws_byte(#[trigger] l[i])
}

/// A line is taken without one trailing carriage return, if present.
pub open spec fn strip_cr(l: Seq<u8>) -> Seq<u8> {
    if l.len() > 0 && l.last() == 13 {
        l.drop_last()
    } else {
        l
    }
}

/// The records framed while consuming `b` byte by byte, `cur` being the
/// unterminated line brought in from earlier input.  Whatever line is still
/// unterminated when `b` runs out yields nothing.
pub open spec fn frames_from(b: Seq<u8>, cur: Seq<u8>) -> Seq<Seq<u8>>
    decreases b.len(),
{
    if b.len() == 0 {
        Seq::<Seq<u8>>::empty()
    } else if b[0] == 10 {
        let line = strip_cr(cur);
        let rest = frames_from(b.skip(1), Seq::<u8>::empty());
        if is_blank(line) {
            rest
        } else {
            seq![line] + rest
        }
    } else {
        frames_from(b.skip(1), cur.push(b[0]))
    }
}

/// The line left unterminated after consuming `b`, starting from `cur`.
pub open spec fn pending_after(b: Seq<u8>, cur: Seq<u8>) -> Seq<u8>
    decreases b.len(),
{
    if b.len() == 0 {
        cur
    } else if b[0] == 10 {
        pending_after(b.skip(1), Seq::<u8>::empty())
    } else {
        pending_after(b.skip(1), cur.push(b[0]))
    }
}

/// The complete records framed from a byte stream.
pub open spec fn frames_of_bytes(b: Seq<u8>) -> Seq<Seq<u8>> {
    frames_from(b, Seq::<u8>::empty())
}

/// The records framed from a stream delivered as a sequence of chunks.
pub open spec fn frames_of_chunks(chunks: Seq<Seq<u8>>) -> Seq<Seq<u8>> {
    frames_of_bytes(chunks.flatten())
}

proof fn lemma_pending_concat(b1: Seq<u8>, b2: Seq<u8>, cur: Seq<u8>)
    ensures
        pending_after(b1 + b2, cur) == pending_after(b2, pending_after(b1, cur)),
    decreases b1.len(),
{
    if b1.len() == 0 {
        assert(b1 + b2 =~= b2);
    } else {
        assert((b1 + b2)[0] == b1[0]);
        assert((b1 + b2).skip(1) =~= b1.skip(1) + b2);
        if b1[0] == 10 {
            lemma_pending_concat(b1.skip(1), b2, Seq::<u8>::empty());
        } else {
            lemma_pending_concat(b1.skip(1), b2, cur.push(b1[0]));
        }
    }
}

proof fn lemma_frames_concat(b1: Seq<u8>, b2: Seq<u8>, cur: Seq<u8>)
    ensures
        frames_from(b1 + b2, cur) == frames_from(b1, cur) + frames_from(
            b2,
            pending_after(b1, cur),
        ),
    decreases b1.len(),
{
    if b1.len() == 0 {
        assert(b1 + b2 =~= b2);
        assert(frames_from(b1, cur) + frames_from(b2, pending_after(b1, cur)) =~= frames_from(
            b2,
            cur,
        ));
    } else {
        assert((b1 + b2)[0] == b1[0]);
        assert((b1 + b2).skip(1) =~= b1.skip(1) + b2);
        if b1[0] == 10 {
            lemma_frames_concat(b1.skip(1), b2, Seq::<u8>::empty());
            let line = strip_cr(cur);
            if !is_blank(line) {
                assert((seq![line] + frames_from(b1.skip(1), Seq::<u8>::empty())) + frames_from(
                    b2,
                    pending_after(b1.skip(1), Seq::<u8>::empty()),
                ) =~= seq![line] + (frames_from(b1.skip(1), Seq::<u8>::empty()) + frames_from(
                    b2,
                    pending_after(b1.skip(1), Seq::<u8>::empty()),
                )));
            }
        } else {
            lemma_frames_concat(b1.skip(1), b2, cur.push(b1[0]));
        }
    }
}

proof fn lemma_frames_snoc(b: Seq<u8>, c: u8, cur: Seq<u8>)
    ensures
        pending_after(b.push(c), cur) == if c == 10 {
            Seq::<u8>::empty()
        } else {
            pending_after(b, cur).push(c)
        },
        frames_from(b.push(c), cur) == if c == 10 {
            let line = strip_cr(pending_after(b, cur));
            frames_from(b, cur) + (if is_blank(line) {
                Seq::<Seq<u8>>::empty()
            } else {
                seq![line]
            })
        } else {
            frames_from(b, cur)
        },
{
    reveal_with_fuel(pending_after, 3);
    reveal_with_fuel(frames_from, 3);
    let tail = seq![c];
    assert(b.push(c) =~= b + tail);
    lemma_pending_concat(b, tail, cur);
    lemma_frames_concat(b, tail, cur);
    let p = pending_after(b, cur);
    assert(tail.skip(1) =~= Seq::<u8>::empty());
    if c == 10 {
        assert(pending_after(tail, p) == Seq::<u8>::empty());
        let line = strip_cr(p);
        if is_blank(line) {
            assert(frames_from(tail, p) =~= Seq::<Seq<u8>>::empty());
            assert(frames_from(b, cur) + frames_from(tail, p) =~= frames_from(b, cur));
        } else {
            assert(frames_from(tail, p) =~= seq![line]);
        }
    } else {
        assert(pending_after(tail, p) == p.push(c));
        assert(frames_from(tail, p) =~= Seq::<Seq<u8>>::empty());
        assert(frames_from(b, cur) + frames_from(tail, p) =~= frames_from(b, cur));
    }
}

/// Chunk boundaries are immaterial: splitting the same byte stream into
/// transport chunks in two different ways frames exactly the same records.
pub proof fn lemma_fragmentation_immaterial(a: Seq<Seq<u8>>, b: Seq<Seq<u8>>)
    requires
        a.flatten() == b.flatten(),
    ensures
        frames_of_chunks(a) == frames_of_chunks(b),
{
}

fn is_blank_bytes(l: &Vec<u8>) -> (r: bool)
    ensures
        r == is_blank(l@),
{
    let n = l.len();
    for i in 0..n
        invariant
            n == l@.len(),
            forall|j: int| 0 <= j < i ==> is_ws_byte(#[trigger] l@[j]),
    {
        let b = l[i];
        if !(b == 32 || b == 9 || b == 13 || b == 11 || b == 12) {
            assert(!is_ws_byte(l@[i as int]));
            return false;
        }
    }
    true
}

/// Incremental decoder state: the unterminated tail of everything fed so
/// far, plus (as ghost state) the whole stream, which the contracts speak
/// of.
pub struct LineDecoder {
    carry: Vec<u8>,
    fed: Ghost<Seq<u8>>,
}

impl LineDecoder {
    /// The whole byte stream fed so far.
    pub closed spec fn stream(&self) -> Seq<u8> {
        self.fed@
    }

    pub closed spec fn wf(&self) -> bool {
        self.carry@ == pending_after(self.fed@, Seq::<u8>::empty())
    }

    pub fn new() -> (d: LineDecoder)
        ensures
            d.wf(),
            d.stream() == Seq::<u8>::empty(),
    {
        LineDecoder { carry: Vec::new(), fed: Ghost(Seq::<u8>::empty()) }
    }

    /// Feeds one transport chunk and returns every record completed by it,
    /// in order.  Records framed over the whole life of the decoder are
    /// exactly `frames_of_bytes` of the whole stream, so they do not depend
    /// on chunk boundaries.
    pub fn push_chunk(&mut self, chunk: &[u8]) -> (frames: Vec<Vec<u8>>)
        requires
            old(self).wf(),
        ensures
            final(self).wf(),
            final(self).stream() == old(self).stream() + chunk@,
            frames_of_bytes(final(self).stream()) == frames_of_bytes(old(self).stream())
                + frames@.map_values(|f: Vec<u8>| f@),
    {
        let ghost carry0 = self.carry@;
        let mut frames: Vec<Vec<u8>> = Vec::new();
        proof {
            assert(chunk@.take(0) =~= Seq::<u8>::empty());
            assert(frames@.map_values(|f: Vec<u8>| f@) =~= frames_from(chunk@.take(0), carry0));
        }
        let n = chunk.len();
        for i in 0..n
            invariant
                n == chunk@.len(),
                self.carry@ == pending_after(chunk@.take(i as int), carry0),
                frames@.map_values(|f: Vec<u8>| f@) == frames_from(chunk@.take(i as int), carry0),
                self.fed == old(self).fed,
        {
            let c = chunk[i];
            proof {
                assert(chunk@.take(i + 1) =~= chunk@.take(i as int).push(chunk@[i as int]));
                lemma_frames_snoc(chunk@.take(i as int), chunk@[i as int], carry0);
            }
            if c == 10 {
                let mut line: Vec<u8> = Vec::new();
                core::mem::swap(&mut self.carry, &mut line);
                if line.len() > 0 && line[line.len() - 1] == 13 {
                    line.pop();
                }
                proof {
                    assert(line@ =~= strip_cr(pending_after(chunk@.take(i as int), carry0)));
                }
                let ghost emitted = frames@.map_values(|f: Vec<u8>| f@);
                if !is_blank_bytes(&line) {
                    let ghost line_v = line@;
                    frames.push(line);
                    proof {
                        assert(frames@.map_values(|f: Vec<u8>| f@) =~= emitted.push(line_v));
                        assert(emitted.push(line_v) =~= emitted + seq![line_v]);
                        assert(frames@.map_values(|f: Vec<u8>| f@) == frames_from(
                            chunk@.take(i + 1),
                            carry0,
                        ));
                    }
                } else {
                    proof {
                        assert(emitted + Seq::<Seq<u8>>::empty() =~= emitted);
                        assert(frames@.map_values(|f: Vec<u8>| f@) == frames_from(
                            chunk@.take(i + 1),
                            carry0,
                        ));
                    }
                }
            } else {
                self.carry.push(c);
            }
        }
        proof {
            assert(chunk@.take(n as int) =~= chunk@);
        }
        let ghost fed0 = self.fed@;
        proof {
            self.fed@ = fed0 + chunk@;
            lemma_pending_concat(fed0, chunk@, Seq::<u8>::empty());
            lemma_frames_concat(fed0, chunk@, Seq::<u8>::empty());
        }
        frames
    }
}

} // verus!
