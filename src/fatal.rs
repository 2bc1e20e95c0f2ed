use vstd::prelude::*;

verus! {

/// `panic!`: the diagnostic of the fatal path.
pub open spec fn panic_text() -> Seq<u8> {
    seq!['p' as u8, 'a' as u8, 'n' as u8, 'i' as u8, 'c' as u8, '!' as u8]
}

/// The bytes that the fatal path sends to the console, one at a time, before
/// it halts: `panic!` when a console is already set up, nothing otherwise.
pub fn panic(console_ready: bool) -> (r: Vec<u8>)
    ensures
        r@ == if console_ready {
            panic_text()
        } else {
            Seq::<u8>::empty()
        },
{
    let mut out: Vec<u8> = Vec::new();
    if console_ready {
        out.push('p' as u8);
        out.push('a' as u8);
        out.push('n' as u8);
        out.push('i' as u8);
        out.push('c' as u8);
        out.push('!' as u8);
        assert(out@ =~= panic_text());
    } else {
        assert(out@ =~= Seq::<u8>::empty());
    }
    out
}

} // verus!
