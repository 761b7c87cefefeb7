use vstd::prelude::*;

verus! {

/// A frame is complete when the buffer is at least as long as the terminator
/// and its last bytes are the terminator.
pub open spec fn frame_complete(buf: Seq<u8>, term: Seq<u8>) -> bool {
    buf.len() >= term.len() && buf.subrange(buf.len() - term.len(), buf.len() as int) == term
}

/// Tests whether `buf` ends with `term`; a buffer shorter than the terminator
/// never matches, and no byte outside either sequence is read.
pub fn ends_with_terminator(buf: &[u8], term: &[u8]) -> (r: bool)
    ensures
        r == frame_complete(buf@, term@),
{
    if buf.len() < term.len() {
        return false;
    }
    let off: usize = buf.len() - term.len();
    let mut i: usize = 0;
    while i < term.len()
        invariant
            off + term.len() == buf.len(),
            i <= term.len(),
            forall|j: int| 0 <= j < i ==> buf@[off + j] == term@[j],
        decreases term.len() - i,
    {
        if buf[off + i] != term[i] {
            assert(buf@.subrange(off as int, buf.len() as int)[i as int] != term@[i as int]);
            return false;
        }
        i = i + 1;
    }
    assert(buf@.subrange(off as int, buf.len() as int) =~= term@);
    true
}

/// A fresh vector holding the same bytes.
pub(crate) fn copy_bytes(b: &[u8]) -> (r: Vec<u8>)
    ensures
        r@ == b@,
{
    let mut out: Vec<u8> = Vec::new();
    let mut i: usize = 0;
    while i < b.len()
        invariant
            i <= b.len(),
            out@ == b@.take(i as int),
        decreases b.len() - i,
    {
        out.push(b[i]);
        i = i + 1;
        assert(b@.take(i as int) =~= b@.take(i - 1) + seq![b@[i - 1]]);
    }
    assert(b@.take(b.len() as int) =~= b@);
    out
}

/// A buffer shorter than the terminator never counts as a complete frame.
pub proof fn lemma_short_buffer_never_matches(buf: Seq<u8>, term: Seq<u8>)
    requires
        buf.len() < term.len(),
    ensures
        !frame_complete(buf, term),
{
}

} // verus!
