//! Finding the end of a request's header block while its bytes arrive.
use vstd::prelude::*;

use crate::error::BridgeError;
use crate::text::push_bytes;

verus! {

/// Largest header buffer that is kept waiting for a terminator.
pub const MAX_HEADER_BYTES: usize = 32768;

/// `\r\n\r\n` starts at position `i` of `b`.
pub open spec fn is_terminator_at(b: Seq<u8>, i: int) -> bool {
    0 <= i && i + 4 <= b.len() && b[i] == 0x0d && b[i + 1] == 0x0a && b[i + 2] == 0x0d && b[i
        + 3] == 0x0a
}

/// The first position at or after `i` where a terminator starts.
pub open spec fn first_terminator_from(b: Seq<u8>, i: int) -> Option<int>
    decreases b.len() - i,
{
    if i < 0 || i + 4 > b.len() {
        None
    } else if is_terminator_at(b, i) {
        Some(i)
    } else {
        first_terminator_from(b, i + 1)
    }
}

/// Length of the header block of `b` (terminator included), if `b` holds a whole one.
pub open spec fn header_end(b: Seq<u8>) -> Option<int> {
    match first_terminator_from(b, 0) {
        Some(k) => Some(k + 4),
        None => None,
    }
}

proof fn lemma_first_terminator_from(b: Seq<u8>, i: int, k: int)
    requires
        0 <= i <= k,
        is_terminator_at(b, k),
        forall|j: int| i <= j < k ==> !is_terminator_at(b, j),
    ensures
        first_terminator_from(b, i) == Some(k),
    decreases k - i,
{
    if i < k {
        lemma_first_terminator_from(b, i + 1, k);
    }
}

proof fn lemma_no_terminator_from(b: Seq<u8>, i: int)
    requires
        0 <= i,
        forall|j: int| i <= j ==> !is_terminator_at(b, j),
    ensures
        first_terminator_from(b, i) is None,
    decreases b.len() - i,
{
    if i + 4 <= b.len() {
        lemma_no_terminator_from(b, i + 1);
    }
}

proof fn lemma_found_terminator_is_first(b: Seq<u8>, i: int)
    requires
        0 <= i,
    ensures
        match first_terminator_from(b, i) {
            Some(k) => i <= k && is_terminator_at(b, k) && forall|j: int|
                i <= j < k ==> !is_terminator_at(b, j),
            None => forall|j: int| i <= j ==> !is_terminator_at(b, j),
        },
    decreases b.len() - i,
{
    if i + 4 <= b.len() && !is_terminator_at(b, i) {
        lemma_found_terminator_is_first(b, i + 1);
    }
}

/// Header-block detection is exact: when the first `\r\n\r\n` of `b` starts at
/// offset `k`, the header block is `k + 4` bytes long; when `b` holds none, it has
/// no header block.
pub proof fn lemma_header_block_exact(b: Seq<u8>, k: int)
    ensures
        (is_terminator_at(b, k) && forall|j: int| 0 <= j < k ==> !is_terminator_at(b, j))
            ==> header_end(b) == Some(k + 4),
        (forall|j: int| !is_terminator_at(b, j)) ==> header_end(b) is None,
        header_end(b) == Some(k + 4) ==> is_terminator_at(b, k) && forall|j: int|
            0 <= j < k ==> !is_terminator_at(b, j),
{
    if is_terminator_at(b, k) && forall|j: int| 0 <= j < k ==> !is_terminator_at(b, j) {
        lemma_first_terminator_from(b, 0, k);
    }
    if forall|j: int| !is_terminator_at(b, j) {
        lemma_no_terminator_from(b, 0);
    }
    lemma_found_terminator_is_first(b, 0);
}

/// Finds the end of the header block: the position just past the first `\r\n\r\n`.
pub fn find_header_end(buf: &[u8]) -> (r: Option<usize>)
    ensures
        match r {
            Some(e) => header_end(buf@) == Some(e as int),
            None => header_end(buf@) is None,
        },
{
    let n = buf.len();
    if n < 4 {
        proof {
            lemma_no_terminator_from(buf@, 0);
        }
        return None;
    }
    let mut i: usize = 0;
    while i <= n - 4
        invariant
            n == buf@.len(),
            4 <= n,
            0 <= i <= n - 3,
            forall|j: int| 0 <= j < i ==> !is_terminator_at(buf@, j),
        decreases n - i,
    {
        if buf[i] == 0x0d && buf[i + 1] == 0x0a && buf[i + 2] == 0x0d && buf[i + 3] == 0x0a {
            proof {
                lemma_first_terminator_from(buf@, 0, i as int);
            }
            return Some(i + 4);
        }
        i = i + 1;
    }
    proof {
        lemma_no_terminator_from(buf@, 0);
    }
    None
}

/// What the header reader asks for after a read.
#[derive(Debug, Clone, Copy, PartialEq, Eq, Structural)]
pub enum ReadStep {
    /// No terminator yet: read more.
    NeedMore,
    /// The header block is complete and is this many bytes long.
    Complete(usize),
    /// The request cannot be read.
    Failed(BridgeError),
}

/// Accumulates the bytes of a request until its header block is complete.
pub struct HeaderReader {
    buf: Vec<u8>,
}

impl View for HeaderReader {
    type V = Seq<u8>;

    closed spec fn view(&self) -> Seq<u8> {
        self.buf@
    }
}

impl HeaderReader {
    /// While reading goes on, the buffer holds no terminator and stays within the cap.
    pub open spec fn wf(&self) -> bool {
        self@.len() <= MAX_HEADER_BYTES && header_end(self@) is None
    }

    pub fn new() -> (r: HeaderReader)
        ensures
            r@ == Seq::<u8>::empty(),
            r.wf(),
    {
        proof {
            lemma_no_terminator_from(Seq::<u8>::empty(), 0);
        }
        HeaderReader { buf: Vec::new() }
    }

    /// Everything read so far.
    pub fn buffer(&self) -> (r: &[u8])
        ensures
            r@ == self@,
    {
        self.buf.as_slice()
    }

    /// Takes the bytes of one read; an empty chunk means the peer closed.
    pub fn push(&mut self, chunk: &[u8]) -> (r: ReadStep)
        requires
            old(self).wf(),
        ensures
            chunk@.len() == 0 ==> final(self)@ == old(self)@ && r == ReadStep::Failed(
                BridgeError::IncompleteRequest,
            ),
            chunk@.len() > 0 ==> final(self)@ == old(self)@ + chunk@ && match header_end(
                final(self)@,
            ) {
                Some(e) => r == ReadStep::Complete(e as usize),
                None => if final(self)@.len() > MAX_HEADER_BYTES {
                    r == ReadStep::Failed(BridgeError::HeadersTooLarge)
                } else {
                    r == ReadStep::NeedMore && final(self).wf()
                },
            },
    {
        if chunk.len() == 0 {
            return ReadStep::Failed(BridgeError::IncompleteRequest);
        }
        push_bytes(&mut self.buf, chunk);
        match find_header_end(self.buf.as_slice()) {
            Some(e) => ReadStep::Complete(e),
            None => {
                if self.buf.len() > MAX_HEADER_BYTES {
                    ReadStep::Failed(BridgeError::HeadersTooLarge)
                } else {
                    ReadStep::NeedMore
                }
            },
        }
    }
}

} // verus!
