use vstd::prelude::*;

use crate::error::{decimal, write_decimal, Error};
use vstd::string::StringExecFns;

verus! {

/// The text of the error for an index past the end of a wavetable chunk.
pub open spec fn chunk_index_message(index: usize, len: usize) -> Seq<char> {
    "Index out of bounds of wavetable chunk. Found "@ + decimal(index as nat) + ", expected < "@
        + decimal(len as nat)
}

/// Formats the text of the error for an index past the end of a wavetable chunk.
fn format_chunk_index(index: usize, len: usize) -> (r: String)
    ensures
        r@ == chunk_index_message(index, len),
{
    let mut s = String::from_str("Index out of bounds of wavetable chunk. Found ");
    write_decimal(&mut s, index as u64);
    s.append(", expected < ");
    write_decimal(&mut s, len as u64);
    proof {
        reveal_strlit("Index out of bounds of wavetable chunk. Found ");
        reveal_strlit(", expected < ");
    }
    s
}

/// The sample at `index` of `chunk`.
pub fn get_sample_at_chunk<S: Copy>(chunk: &[S], index: usize) -> (r: Result<S, Error>)
    ensures
        index < chunk@.len() ==> r == Ok::<S, Error>(chunk@[index as int]),
        index >= chunk@.len() ==> (r matches Err(Error::Generic(e)) && e@ == chunk_index_message(
            index,
            chunk@.len() as usize,
        )),
{
    if index < chunk.len() {
        Ok(chunk[index])
    } else {
        Err(Error::Generic(format_chunk_index(index, chunk.len())))
    }
}

/// Where `bound_index` puts `index` on a chunk of `chunk_size` samples: an index one
/// chunk before the start or past the end is moved by one chunk length.
pub open spec fn bounded_sample_index(chunk_size: int, index: int) -> int {
    if index < 0 {
        chunk_size + index
    } else if index >= chunk_size {
        index - chunk_size
    } else {
        index
    }
}

/// Moves an index that lies one chunk before the start, or up to one chunk past
/// the end, back into the chunk, so that reading wraps around the chunk.
pub fn bound_index(chunk_size: usize, index: i32) -> (r: usize)
    requires
        chunk_size <= i32::MAX,
    ensures
        r == bounded_sample_index(chunk_size as int, index as int) as usize,
        -(chunk_size as int) <= index < 2 * chunk_size ==> r == (index as int) % (chunk_size as int),
{
    let chunk = chunk_size as i32;
    proof {
        if -(chunk_size as int) <= index < 2 * chunk_size {
            let c = chunk_size as int;
            let i = index as int;
            if i < 0 {
                vstd::arithmetic::div_mod::lemma_mod_multiples_vanish(-1, c + i, c);
                vstd::arithmetic::div_mod::lemma_small_mod((c + i) as nat, c as nat);
            } else if i >= c {
                vstd::arithmetic::div_mod::lemma_mod_multiples_vanish(1, i - c, c);
                vstd::arithmetic::div_mod::lemma_small_mod((i - c) as nat, c as nat);
            } else {
                vstd::arithmetic::div_mod::lemma_small_mod(i as nat, c as nat);
            }
        }
    }
    if index < 0 {
        return (chunk + index) as usize;
    }
    if index >= chunk {
        return (index - chunk) as usize;
    }
    index as usize
}

/// Every index of `start..start + count` lands inside `chunk` once bounded.
pub open spec fn range_in_chunk(chunk_len: int, chunk_size: int, start: int, count: int) -> bool {
    forall|k: int|
        0 <= k < count ==> 0 <= #[trigger] bounded_sample_index(chunk_size, start + k) < chunk_len
}

/// The samples at `start..start + count` of `chunk`, each index bounded onto a chunk
/// of `chunk_size` samples.
pub fn get_samples_ranged<S: Copy>(chunk: &[S], chunk_size: usize, start: i32, count: i32) -> (r: Vec<S>)
    requires
        chunk_size <= i32::MAX,
        i32::MIN <= start + count <= i32::MAX,
        range_in_chunk(chunk@.len() as int, chunk_size as int, start as int, count as int),
    ensures
        r@ == Seq::new(
            if count > 0 { count as nat } else { 0 },
            |k: int| chunk@[bounded_sample_index(chunk_size as int, start + k)],
        ),
{
    let end = start + count;
    let mut samples: Vec<S> = Vec::new();
    let mut index = start;
    while index < end
        invariant
            start <= index,
            index <= end || index == start,
            end == start + count,
            chunk_size <= i32::MAX,
            range_in_chunk(chunk@.len() as int, chunk_size as int, start as int, count as int),
            samples@ == Seq::new(
                (index - start) as nat,
                |k: int| chunk@[bounded_sample_index(chunk_size as int, start + k)],
            ),
        decreases end - index,
    {
        let ind = bound_index(chunk_size, index);
        proof {
            assert(0 <= bounded_sample_index(chunk_size as int, start + (index - start)) < chunk@.len());
        }
        let sample = get_sample_at_chunk(chunk, ind).unwrap();
        samples.push(sample);
        index = index + 1;
        proof {
            assert(samples@ =~= Seq::new(
                (index - start) as nat,
                |k: int| chunk@[bounded_sample_index(chunk_size as int, start + k)],
            ));
        }
    }
    proof {
        if count <= 0 {
            assert(samples@ =~= Seq::new(0, |k: int| chunk@[bounded_sample_index(chunk_size as int, start + k)]));
        }
    }
    samples
}

/// The samples at `start..start + count` of `chunk`, as in `get_samples_ranged`, each
/// with the bounded index it was read at.
pub fn get_samples_points_ranged<S: Copy>(chunk: &[S], chunk_size: usize, start: i32, count: i32) -> (r: Vec<(usize, S)>)
    requires
        chunk_size <= i32::MAX,
        i32::MIN <= start + count <= i32::MAX,
        range_in_chunk(chunk@.len() as int, chunk_size as int, start as int, count as int),
    ensures
        r@ == Seq::new(
            if count > 0 { count as nat } else { 0 },
            |k: int| {
                let ind = bounded_sample_index(chunk_size as int, start + k);
                (ind as usize, chunk@[ind])
            },
        ),
{
    let end = start + count;
    let mut points: Vec<(usize, S)> = Vec::new();
    let mut index = start;
    while index < end
        invariant
            start <= index,
            index <= end || index == start,
            end == start + count,
            chunk_size <= i32::MAX,
            range_in_chunk(chunk@.len() as int, chunk_size as int, start as int, count as int),
            points@ == Seq::new(
                (index - start) as nat,
                |k: int| {
                    let ind = bounded_sample_index(chunk_size as int, start + k);
                    (ind as usize, chunk@[ind])
                },
            ),
        decreases end - index,
    {
        let ind = bound_index(chunk_size, index);
        proof {
            assert(0 <= bounded_sample_index(chunk_size as int, start + (index - start)) < chunk@.len());
        }
        let sample = get_sample_at_chunk(chunk, ind).unwrap();
        points.push((ind, sample));
        index = index + 1;
        proof {
            assert(points@ =~= Seq::new(
                (index - start) as nat,
                |k: int| {
                    let ind = bounded_sample_index(chunk_size as int, start + k);
                    (ind as usize, chunk@[ind])
                },
            ));
        }
    }
    proof {
        if count <= 0 {
            assert(points@ =~= Seq::new(
                0,
                |k: int| {
                    let ind = bounded_sample_index(chunk_size as int, start + k);
                    (ind as usize, chunk@[ind])
                },
            ));
        }
    }
    points
}

} // verus!
