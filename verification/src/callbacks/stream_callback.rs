use crate::error::Error;
use crate::utils::sample_buffer::channel_index_message;
use crate::utils::sample_buffer::SampleBuffer;
use vstd::prelude::*;

verus! {

/// The message of the error for a channel that runs out of samples before the
/// stream is full.
pub open spec fn next_sample_message() -> Seq<char> {
    "Cannot get next sample"@
}

/// `after` is `before` with frames `0..n` set to `(left[k], right[k])`, and,
/// when `half` holds, the left sample of frame `n` set to `left[n]`; every
/// other sample is kept.
pub open spec fn frames_written<S>(
    before: Seq<S>,
    after: Seq<S>,
    left: Seq<S>,
    right: Seq<S>,
    n: int,
    half: bool,
) -> bool {
    &&& after.len() == before.len()
    &&& forall|k: int| 0 <= k < n ==> #[trigger] after[2 * k] == left[k] && after[2 * k + 1] == right[k]
    &&& half ==> after[2 * n] == left[n]
    &&& forall|i: int|
        (if half {
            2 * n + 1
        } else {
            2 * n
        }) <= i < before.len() ==> #[trigger] after[i] == before[i]
}

/// The smallest of three integers.
pub open spec fn min3(a: int, b: int, c: int) -> int {
    if a <= b && a <= c {
        a
    } else if b <= c {
        b
    } else {
        c
    }
}

/// Fills `data` with interleaved stereo frames: frame `k` is sample `k` of
/// channel 0 followed by sample `k` of channel 1. A trailing odd sample is left
/// as it is. A buffer with fewer than two channels is an error that writes
/// nothing; a channel that runs out before the last frame is an error too, and
/// everything up to the missing sample has been written by then.
pub fn write_stereo_frames<S: Copy>(buffer: &SampleBuffer<S>, data: &mut [S]) -> (r: Result<(), Error>)
    ensures
        buffer.data().len() < 2 ==> (r matches Err(Error::Generic(e)) && e@ == channel_index_message()
            && final(data)@ == old(data)@),
        buffer.data().len() >= 2 ==> {
            let left = buffer.data()[0];
            let right = buffer.data()[1];
            let frames = (old(data)@.len() / 2) as int;
            let n = min3(frames, left.len() as int, right.len() as int);
            &&& frames_written(old(data)@, final(data)@, left, right, n, n < frames && n < left.len())
            &&& n == frames ==> r is Ok
            &&& n < frames ==> (r matches Err(Error::Generic(e)) && e@ == next_sample_message())
        },
{
    let left = buffer.get_buffer_ref(0)?.get_slice();
    let right = buffer.get_buffer_ref(1)?.get_slice();
    let ghost before = data@;
    let len = data.len();
    let frames = len / 2;
    let mut k: usize = 0;
    while k < frames
        invariant
            buffer.data().len() >= 2,
            left@ == buffer.data()[0],
            right@ == buffer.data()[1],
            before == old(data)@,
            len == before.len(),
            frames == len / 2,
            k <= frames,
            k <= left@.len(),
            k <= right@.len(),
            frames_written(before, data@, left@, right@, k as int, false),
        decreases frames - k,
    {
        let ghost prev = data@;
        if k >= left.len() {
            let e = Error::from("Cannot get next sample");
            proof {
                reveal_strlit("Cannot get next sample");
            }
            return Err(e);
        }
        data[2 * k] = left[k];
        if k >= right.len() {
            let e = Error::from("Cannot get next sample");
            proof {
                reveal_strlit("Cannot get next sample");
            }
            return Err(e);
        }
        data[2 * k + 1] = right[k];
        proof {
            let ki = k as int;
            assert forall|j: int| 0 <= j < ki + 1 implies #[trigger] data@[2 * j] == left@[j] && data@[2
                * j + 1] == right@[j] by {
                if j < ki {
                    assert(prev[2 * j] == left@[j]);
                }
            }
            assert forall|i: int| 2 * (ki + 1) <= i < before.len() implies #[trigger] data@[i] == before[i] by {
                assert(prev[i] == before[i]);
            }
        }
        k = k + 1;
    }
    Ok(())
}

} // verus!
