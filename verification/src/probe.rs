//! Structured probe support: selecting the dimensions of the first
//! stream that reports both a width and a height, from the machine-
//! readable key/value output of the companion probe tool.

use vstd::prelude::*;

verus! {

/// The dimensions of the first stream reporting both, in order.
pub open spec fn spec_first_dims(streams: Seq<(Option<u64>, Option<u64>)>) -> Option<(u64, u64)>
    decreases streams.len(),
{
    if streams.len() == 0 {
        None
    } else {
        match (streams[0].0, streams[0].1) {
            (Some(w), Some(h)) => Some((w, h)),
            _ => spec_first_dims(streams.drop_first()),
        }
    }
}

/// Pick the first stream that reports both a width and a height.
#[verifier::loop_isolation(false)]
pub fn select_stream_dimensions(streams: &Vec<(Option<u64>, Option<u64>)>) -> (r: Option<
    (u64, u64),
>)
    ensures
        r == spec_first_dims(streams@),
{
    let n = streams.len();
    let mut i: usize = 0;
    proof {
        assert(streams@.skip(0) =~= streams@);
    }
    while i < n
        invariant
            i <= n,
            spec_first_dims(streams@) == spec_first_dims(streams@.skip(i as int)),
        decreases n - i,
    {
        let (w, h) = streams[i];
        proof {
            assert(streams@.skip(i as int)[0] == streams@[i as int]);
            assert(streams@.skip(i as int).drop_first() =~= streams@.skip(i + 1));
        }
        if let (Some(wv), Some(hv)) = (w, h) {
            return Some((wv, hv));
        }
        i += 1;
    }
    proof {
        assert(streams@.skip(n as int).len() == 0);
    }
    None
}

} // verus!
