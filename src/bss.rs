use vstd::prelude::*;

verus! {

/// A region of `n` zero bytes.
pub open spec fn zeroed(n: nat) -> Seq<u8> {
    Seq::new(n, |i: int| 0u8)
}

/// Clears the uninitialised-data region `bss`, one byte at a time from its
/// first byte to its last.
pub fn zero_bss(bss: &mut [u8])
    ensures
        final(bss)@ == zeroed(old(bss)@.len()),
{
    let n = bss.len();
    let mut i: usize = 0;
    while i < n
        invariant
            n == bss@.len(),
            n == old(bss)@.len(),
            i <= n,
            forall|k: int| 0 <= k < i ==> bss@[k] == 0u8,
        decreases n - i,
    {
        bss[i] = 0u8;
        i = i + 1;
    }
    assert(bss@ =~= zeroed(n as nat));
}

/// Clearing a region that is already clear leaves it as it is: clearing twice
/// is observably the same as clearing once.
pub proof fn zero_bss_idempotent(region: Seq<u8>)
    ensures
        zeroed(zeroed(region.len()).len()) == zeroed(region.len()),
{
}

} // verus!
