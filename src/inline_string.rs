use vstd::prelude::*;

verus! {

/// The first `min(s.len(), n)` bytes of `s`: what a buffer of `n` bytes keeps.
pub open spec fn clamp(s: Seq<u8>, n: nat) -> Seq<u8> {
    if s.len() <= n {
        s
    } else {
        s.take(n as int)
    }
}

/// A bounded byte string stored in place: a used length and a buffer of `N` bytes.
pub struct InlineString<const N: usize>(usize, [u8; N]);

impl<const N: usize> View for InlineString<N> {
    type V = Seq<u8>;

    closed spec fn view(&self) -> Seq<u8> {
        self.1@.take(self.0 as int)
    }
}

impl<const N: usize> InlineString<N> {
    /// The used length never exceeds the buffer.
    pub closed spec fn wf(&self) -> bool {
        self.0 <= N
    }

    /// The empty string.
    pub fn new() -> (r: Self)
        ensures
            r.wf(),
            r@ == Seq::<u8>::empty(),
    {
        InlineString(0, [0u8; N])
    }

    /// Copies `s` into a new string, keeping only the first `N` bytes of a longer one.
    pub fn from_bytes(s: &[u8]) -> (r: Self)
        ensures
            r.wf(),
            r@ == clamp(s@, N as nat),
    {
        let len: usize = if s.len() <= N { s.len() } else { N };
        let mut buf = [0u8; N];
        let mut i: usize = 0;
        while i < len
            invariant
                len <= N,
                len <= s@.len(),
                i <= len,
                buf@.len() == N,
                forall|k: int| 0 <= k < i ==> buf@[k] == s@[k],
            decreases len - i,
        {
            buf[i] = s[i];
            i = i + 1;
        }
        let r = InlineString(len, buf);
        assert(r@ =~= clamp(s@, N as nat));
        r
    }

    /// Number of bytes in use.
    pub fn len(&self) -> (r: usize)
        requires
            self.wf(),
        ensures
            r == self@.len(),
    {
        self.0
    }

    /// The bytes in use.
    pub fn as_bytes(&self) -> (r: &[u8])
        requires
            self.wf(),
        ensures
            r@ == self@,
    {
        let all = self.1.as_slice();
        let r = vstd::slice::slice_subrange(all, 0, self.0);
        assert(r@ =~= self@);
        r
    }
}

} // verus!
