use vstd::prelude::*;

verus! {

/// Appends `data` to the output buffer `to`, which is later handed whole to a
/// byte sink.
pub fn write(to: &mut Vec<u8>, data: &[u8])
    ensures
        final(to)@ == old(to)@ + data@,
{
    let n = data.len();
    for k in 0..n
        invariant
            n == data@.len(),
            to@ == old(to)@ + data@.take(k as int),
    {
        to.push(data[k]);
        assert(data@.take(k + 1) =~= data@.take(k as int).push(data@[k as int]));
        assert(to@ =~= old(to)@ + data@.take(k + 1));
    }
    assert(data@.take(n as int) =~= data@);
}

} // verus!
