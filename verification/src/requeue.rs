//! Complete SIP frames that were set aside for later, in the order of arrival.

use crate::net::push_bytes;
use vstd::prelude::*;

verus! {

/// How many frames are kept at most.
pub const MAX_REQUEUED_FRAMES: usize = 64;

/// How many bytes are kept at most.
pub const MAX_REQUEUED_BYTES: usize = 65_536;

#[derive(Debug, PartialEq, Eq)]
pub struct ImsRequeue {
    frames: Vec<Vec<u8>>,
    bytes: usize,
}

pub open spec fn frames_view(v: Seq<Vec<u8>>) -> Seq<Seq<u8>> {
    Seq::new(v.len(), |i: int| v[i]@)
}

/// How many bytes the first `n` frames have.
pub open spec fn size_upto(frames: Seq<Seq<u8>>, n: int) -> int
    decreases n,
{
    if n <= 0 {
        0
    } else {
        size_upto(frames, n - 1) + frames[n - 1].len()
    }
}

pub open spec fn size_of_frames(frames: Seq<Seq<u8>>) -> int {
    size_upto(frames, frames.len() as int)
}

/// Is there room for one more frame?
pub open spec fn has_room(frames: Seq<Seq<u8>>, frame: Seq<u8>) -> bool {
    frames.len() < MAX_REQUEUED_FRAMES && size_of_frames(frames) + frame.len()
        <= MAX_REQUEUED_BYTES
}

/// The first `n` frames one after the other.
pub open spec fn joined_upto(frames: Seq<Seq<u8>>, n: int) -> Seq<u8>
    decreases n,
{
    if n <= 0 {
        seq![]
    } else {
        joined_upto(frames, n - 1) + frames[n - 1]
    }
}

pub open spec fn joined(frames: Seq<Seq<u8>>) -> Seq<u8> {
    joined_upto(frames, frames.len() as int)
}

proof fn lemma_size_first(frames: Seq<Seq<u8>>, n: int)
    requires
        1 <= n <= frames.len(),
    ensures
        size_upto(frames, n) == frames[0].len() + size_upto(frames.drop_first(), n - 1),
    decreases n,
{
    if n > 1 {
        lemma_size_first(frames, n - 1);
        assert(frames.drop_first()[n - 2] == frames[n - 1]);
    } else {
        assert(size_upto(frames, 0) == 0);
    }
}

proof fn lemma_size_prefix(frames: Seq<Seq<u8>>, frame: Seq<u8>, n: int)
    requires
        0 <= n <= frames.len(),
    ensures
        size_upto(frames.push(frame), n) == size_upto(frames, n),
    decreases n,
{
    if n > 0 {
        lemma_size_prefix(frames, frame, n - 1);
    }
}

impl View for ImsRequeue {
    type V = Seq<Seq<u8>>;

    closed spec fn view(&self) -> Seq<Seq<u8>> {
        frames_view(self.frames@)
    }
}

impl Default for ImsRequeue {
    fn default() -> (r: Self)
        ensures
            r.wf(),
            r@ == Seq::<Seq<u8>>::empty(),
    {
        let r = ImsRequeue { frames: Vec::new(), bytes: 0 };
        assert(r@ =~= Seq::<Seq<u8>>::empty());
        r
    }
}

impl ImsRequeue {
    /// The number of bytes is that of the frames.
    pub closed spec fn wf(&self) -> bool {
        self.bytes == size_of_frames(self@)
    }

    pub fn len(&self) -> (r: usize)
        ensures
            r == self@.len(),
    {
        self.frames.len()
    }

    pub fn bytes(&self) -> (r: usize)
        requires
            self.wf(),
        ensures
            r == size_of_frames(self@),
    {
        self.bytes
    }

    /// Sets a frame aside behind the others; one for which there is no room is
    /// dropped, and the others stay.
    pub fn push_back(&mut self, frame: Vec<u8>) -> (r: bool)
        requires
            old(self).wf(),
        ensures
            final(self).wf(),
            r == has_room(old(self)@, frame@),
            final(self)@ == (if r {
                old(self)@.push(frame@)
            } else {
                old(self)@
            }),
    {
        let size: usize = frame.len();
        assert(self.frames@.len() == self@.len());
        if self.frames.len() >= MAX_REQUEUED_FRAMES || size > MAX_REQUEUED_BYTES || self.bytes
            > MAX_REQUEUED_BYTES - size {
            return false;
        }
        let ghost before = self@;
        let ghost value = frame@;
        self.frames.push(frame);
        self.bytes = self.bytes + size;
        assert(self@ =~= before.push(value));
        proof {
            lemma_size_prefix(before, value, before.len() as int);
        }
        true
    }

    /// The frame that was set aside first.
    pub fn pop_front(&mut self) -> (r: Option<Vec<u8>>)
        requires
            old(self).wf(),
        ensures
            final(self).wf(),
            match r {
                Some(frame) => old(self)@.len() > 0 && frame@ == old(self)@[0] && final(self)@
                    == old(self)@.drop_first(),
                None => old(self)@.len() == 0 && final(self)@ == old(self)@,
            },
    {
        assert(self.frames@.len() == self@.len());
        if self.frames.len() == 0 {
            return None;
        }
        let ghost before = self@;
        proof {
            lemma_size_first(before, before.len() as int);
            lemma_size_positive(before.drop_first(), before.len() - 1);
        }
        let frame = self.frames.remove(0);
        assert(before[0] == frame@);
        assert(self@ =~= before.drop_first());
        self.bytes = self.bytes - frame.len();
        Some(frame)
    }

    /// All frames one after the other, and then some bytes.
    pub fn merged_with(self, pending: &[u8]) -> (r: Vec<u8>)
        ensures
            r@ == joined(self@) + pending@,
    {
        let ghost all = self@;
        let mut out: Vec<u8> = Vec::new();
        let mut i: usize = 0;
        assert(out@ =~= joined_upto(all, 0));
        while i < self.frames.len()
            invariant
                i <= self.frames@.len(),
                all == frames_view(self.frames@),
                out@ == joined_upto(all, i as int),
            decreases self.frames@.len() - i,
        {
            assert(all[i as int] == self.frames@[i as int]@);
            push_bytes(&mut out, self.frames[i].as_slice());
            i += 1;
        }
        push_bytes(&mut out, pending);
        out
    }
}

proof fn lemma_size_positive(frames: Seq<Seq<u8>>, n: int)
    requires
        n <= frames.len(),
    ensures
        size_upto(frames, n) >= 0,
    decreases n,
{
    if n > 0 {
        lemma_size_positive(frames, n - 1);
    }
}

} // verus!
