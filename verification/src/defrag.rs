//! Fragment reassembly helper.
use vstd::prelude::*;
use crate::frame::{Flags, FrameHeader, VERSION};
use crate::message::ErrorCode;

verus! {

/// Abstract state of a [`Defragmenter`].
pub struct DefragState {
    /// Bytes collected so far (after a completed message: that message).
    pub buffer: Seq<u8>,
    /// Sequence number of the message being reassembled.
    pub seq: Option<u16>,
}

/// The state with nothing buffered.
pub open spec fn idle_state() -> DefragState {
    DefragState { buffer: Seq::empty(), seq: None }
}

/// One step of reassembly with capacity `cap`: the next state and the
/// result of feeding `payload` with `header` in state `st`.
pub open spec fn spec_feed(cap: nat, st: DefragState, header: FrameHeader, payload: Seq<u8>) -> (
    DefragState,
    Result<Option<Seq<u8>>, ErrorCode>,
) {
    let frag = header.flags.0 & Flags::FRAGMENT != 0;
    let last = header.flags.0 & Flags::LAST_FRAGMENT != 0;
    if !frag {
        (idle_state(), Ok(Some(payload)))
    } else if st.seq matches Some(s) && s != header.seq {
        (idle_state(), Err(ErrorCode::Fragmentation))
    } else {
        let base = if st.seq is Some {
            st.buffer
        } else {
            Seq::empty()
        };
        if base.len() + payload.len() > cap {
            (idle_state(), Err(ErrorCode::Fragmentation))
        } else if !last {
            (DefragState { buffer: base + payload, seq: Some(header.seq) }, Ok(None))
        } else {
            (DefragState { buffer: base + payload, seq: None }, Ok(Some(base + payload)))
        }
    }
}

/// A feed result with the returned bytes viewed.
pub open spec fn feed_view(r: Result<Option<&[u8]>, ErrorCode>) -> Result<Option<Seq<u8>>, ErrorCode> {
    match r {
        Ok(Some(b)) => Ok(Some(b@)),
        Ok(None) => Ok(None),
        Err(e) => Err(e),
    }
}

/// Reassembles fragmented payloads over stream or packet transports, with
/// room for `N` bytes.
#[derive(Debug)]
pub struct Defragmenter<const N: usize> {
    buffer: Vec<u8>,
    current_seq: Option<u16>,
}

impl<const N: usize> View for Defragmenter<N> {
    type V = DefragState;

    closed spec fn view(&self) -> DefragState {
        DefragState { buffer: self.buffer@, seq: self.current_seq }
    }
}

impl<const N: usize> Defragmenter<N> {
    #[verifier::type_invariant]
    closed spec fn wf(&self) -> bool {
        self.buffer@.len() <= N
    }

    /// Create a new defragmenter.
    pub fn new() -> (r: Self)
        ensures
            r@ == idle_state(),
    {
        let r = Defragmenter { buffer: Vec::new(), current_seq: None };
        assert(r@.buffer =~= idle_state().buffer);
        r
    }

    /// Reset the internal state, discarding any buffered fragments.
    pub fn reset(&mut self)
        ensures
            final(self)@ == idle_state(),
    {
        self.buffer = Vec::new();
        self.current_seq = None;
        assert(self@.buffer =~= idle_state().buffer);
    }

    /// Append `payload` when it fits in the remaining room.
    fn extend(&mut self, payload: &[u8]) -> (ok: bool)
        ensures
            ok == (old(self)@.buffer.len() + payload@.len() <= N),
            ok ==> final(self)@ == (DefragState {
                buffer: old(self)@.buffer + payload@,
                ..old(self)@
            }),
            !ok ==> final(self)@ == old(self)@,
    {
        proof {
            use_type_invariant(&*self);
        }
        if payload.len() > N - self.buffer.len() {
            return false;
        }
        let mut buf = Vec::new();
        std::mem::swap(&mut buf, &mut self.buffer);
        let ghost before = buf@;
        let mut i: usize = 0;
        while i < payload.len()
            invariant
                i <= payload@.len(),
                buf@ == before + payload@.take(i as int),
            decreases payload@.len() - i,
        {
            buf.push(payload[i]);
            assert(buf@ =~= before + payload@.take(i + 1));
            i += 1;
        }
        assert(buf@ =~= before + payload@);
        self.buffer = buf;
        true
    }

    /// Feed a frame into the defragmenter.
    ///
    /// - An unfragmented frame discards any partial message and is handed
    ///   straight back (`Ok(Some(payload))`).
    /// - A fragment is buffered (`Ok(None)`).
    /// - The last fragment completes the message, which is returned.
    ///
    /// `Err(ErrorCode::Fragmentation)` when a fragment's sequence number
    /// differs from the message being reassembled, or when it would not fit;
    /// the state is reset then.
    pub fn feed<'a>(&'a mut self, header: &FrameHeader, payload: &'a [u8]) -> (r: Result<
        Option<&'a [u8]>,
        ErrorCode,
    >)
        ensures
            (final(self)@, feed_view(r)) == spec_feed(N as nat, old(self)@, *header, payload@),
    {
        let is_fragment = header.flags.has(Flags::FRAGMENT);
        let is_last = header.flags.has(Flags::LAST_FRAGMENT);
        if !is_fragment {
            self.reset();
            return Ok(Some(payload));
        }
        if let Some(seq) = self.current_seq {
            if seq != header.seq {
                self.reset();
                return Err(ErrorCode::Fragmentation);
            }
        } else {
            self.buffer = Vec::new();
            if !is_last {
                self.current_seq = Some(header.seq);
            }
        }
        if !self.extend(payload) {
            self.reset();
            return Err(ErrorCode::Fragmentation);
        }
        if !is_last {
            return Ok(None);
        }
        self.current_seq = None;
        Ok(Some(self.buffer.as_slice()))
    }
}

impl<const N: usize> Default for Defragmenter<N> {
    fn default() -> (r: Self)
        ensures
            r@ == idle_state(),
    {
        Self::new()
    }
}

/// Header of a non-final fragment of message `seq`.
pub open spec fn fragment_header(seq: u16) -> FrameHeader {
    FrameHeader { version: VERSION, flags: Flags(Flags::FRAGMENT), seq }
}

/// Header of the final fragment of message `seq`.
pub open spec fn last_fragment_header(seq: u16) -> FrameHeader {
    FrameHeader { version: VERSION, flags: Flags(Flags::FRAGMENT | Flags::LAST_FRAGMENT), seq }
}

/// The state after feeding the non-final fragments `ps` of message `seq`,
/// in order, starting from `st`.
pub open spec fn feed_fragments(cap: nat, st: DefragState, seq: u16, ps: Seq<Seq<u8>>) -> DefragState
    decreases ps.len(),
{
    if ps.len() == 0 {
        st
    } else {
        spec_feed(cap, feed_fragments(cap, st, seq, ps.drop_last()), fragment_header(seq), ps.last()).0
    }
}

/// Reassembly: starting with no message in progress, the fragments of one
/// message fed in order are each accepted (`Ok(None)`), and its last
/// fragment yields all of them concatenated, whenever they fit in the
/// buffer.
pub proof fn lemma_reassembly(cap: nat, st: DefragState, seq: u16, ps: Seq<Seq<u8>>, last: Seq<u8>)
    requires
        st.seq is None,
        ps.flatten().len() + last.len() <= cap,
    ensures
        forall|k: int|
            0 <= k < ps.len() ==> (#[trigger] spec_feed(
                cap,
                feed_fragments(cap, st, seq, ps.take(k)),
                fragment_header(seq),
                ps[k],
            )).1 == Ok::<Option<Seq<u8>>, ErrorCode>(None),
        spec_feed(cap, feed_fragments(cap, st, seq, ps), last_fragment_header(seq), last).1 == Ok::<
            Option<Seq<u8>>,
            ErrorCode,
        >(Some(ps.flatten() + last)),
{
    lemma_fragments_state(cap, st, seq, ps, last.len());
    assert(Flags::FRAGMENT & Flags::FRAGMENT != 0) by (bit_vector);
    assert(Flags::FRAGMENT & Flags::LAST_FRAGMENT == 0) by (bit_vector);
    assert((Flags::FRAGMENT | Flags::LAST_FRAGMENT) & Flags::FRAGMENT != 0) by (bit_vector);
    assert((Flags::FRAGMENT | Flags::LAST_FRAGMENT) & Flags::LAST_FRAGMENT != 0) by (bit_vector);
    assert forall|k: int| 0 <= k < ps.len() implies (#[trigger] spec_feed(
        cap,
        feed_fragments(cap, st, seq, ps.take(k)),
        fragment_header(seq),
        ps[k],
    )).1 == Ok::<Option<Seq<u8>>, ErrorCode>(None) by {
        let pre = ps.take(k + 1);
        lemma_flatten_prefix(ps, k + 1);
        lemma_flatten_prefix(ps, k);
        lemma_fragments_state(cap, st, seq, pre, 0);
        assert(pre.drop_last() =~= ps.take(k));
        assert(pre.last() == ps[k]);
        lemma_fragments_state(cap, st, seq, ps.take(k), 0);
    }
    if ps.len() == 0 {
        assert(ps.flatten() =~= Seq::<u8>::empty());
    }
}

/// A prefix of the fragments flattens to no more than all of them.
proof fn lemma_flatten_prefix(ps: Seq<Seq<u8>>, k: int)
    requires
        0 <= k <= ps.len(),
    ensures
        ps.take(k).flatten().len() <= ps.flatten().len(),
    decreases ps.len() - k,
{
    if k < ps.len() {
        lemma_flatten_prefix(ps, k + 1);
        let t = ps.take(k + 1);
        assert(t =~= ps.take(k).push(ps[k]));
        ps.take(k).lemma_flatten_push(ps[k]);
    } else {
        assert(ps.take(k) =~= ps);
    }
}

/// After the non-final fragments `ps` (with `extra` more bytes still to
/// fit), the buffer holds them concatenated under sequence `seq`.
proof fn lemma_fragments_state(cap: nat, st: DefragState, seq: u16, ps: Seq<Seq<u8>>, extra: nat)
    requires
        st.seq is None,
        ps.flatten().len() + extra <= cap,
    ensures
        ps.len() == 0 ==> feed_fragments(cap, st, seq, ps) == st,
        ps.len() > 0 ==> feed_fragments(cap, st, seq, ps) == (DefragState {
            buffer: ps.flatten(),
            seq: Some(seq),
        }),
    decreases ps.len(),
{
    if ps.len() > 0 {
        let d = ps.drop_last();
        d.lemma_flatten_push(ps.last());
        assert(d.push(ps.last()) =~= ps);
        lemma_fragments_state(cap, st, seq, d, extra + ps.last().len());
        assert(Flags::FRAGMENT & Flags::FRAGMENT != 0) by (bit_vector);
        assert(Flags::FRAGMENT & Flags::LAST_FRAGMENT == 0) by (bit_vector);
        if d.len() == 0 {
            assert(d.flatten() =~= Seq::<u8>::empty());
        }
    }
}

/// Reassembly errors: once fragments of message `seq` have been accepted,
/// a fragment of any other message, or one whose bytes would overflow the
/// buffer, is refused with [`ErrorCode::Fragmentation`] and drops the
/// partial message, so the next fragment starts a new one.
pub proof fn lemma_reassembly_errors(
    cap: nat,
    st: DefragState,
    seq: u16,
    ps: Seq<Seq<u8>>,
    header: FrameHeader,
    payload: Seq<u8>,
)
    requires
        st.seq is None,
        ps.len() > 0,
        ps.flatten().len() <= cap,
        header.flags.0 & Flags::FRAGMENT != 0,
        header.seq != seq || ps.flatten().len() + payload.len() > cap,
    ensures
        spec_feed(cap, feed_fragments(cap, st, seq, ps), header, payload) == (
            idle_state(),
            Err::<Option<Seq<u8>>, ErrorCode>(ErrorCode::Fragmentation),
        ),
{
    lemma_fragments_state(cap, st, seq, ps, 0);
}

} // verus!
