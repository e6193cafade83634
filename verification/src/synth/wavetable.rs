use vstd::prelude::*;

use crate::error::{decimal, write_decimal, Error};
use vstd::string::StringExecFns;
use crate::utils::sample_buffer::SampleBufferMono;

verus! {

/// Single-cycle waveforms stored one after another in one buffer, in chunks of
/// `chunk_size` samples; `position` selects the chunk that plays. `S` is the sample
/// type and `M` the interpolation method used to read between samples.
pub struct WaveTable<S, M> {
    buffer: SampleBufferMono<S>,
    chunk_size: usize,
    position: usize,
    interpolation: M,
}

/// Collects the parts of a wavetable, then builds it.
pub struct WaveTableBuilder<S, M> {
    buffer: Option<SampleBufferMono<S>>,
    chunk_size: Option<usize>,
    position: Option<usize>,
    interpolation: Option<M>,
}

/// The message of the error for a position past the last chunk.
pub open spec fn position_message() -> Seq<char> {
    "Position should be less than chunks count"@
}

/// The message of the error for a buffer that does not split into whole chunks.
pub open spec fn split_message() -> Seq<char> {
    "Cannot split sample buffer into the same length chunks"@
}

/// The text of the error for a position whose chunk does not exist.
pub open spec fn missing_chunk_message(position: usize) -> Seq<char> {
    "Cannot get "@ + decimal(position as nat) + " position of wavetable"@
}

/// Formats the text of the error for a position whose chunk does not exist.
fn format_missing_chunk(position: usize) -> (r: String)
    ensures
        r@ == missing_chunk_message(position),
{
    let mut s = String::from_str("Cannot get ");
    write_decimal(&mut s, position as u64);
    s.append(" position of wavetable");
    proof {
        reveal_strlit("Cannot get ");
        reveal_strlit(" position of wavetable");
    }
    s
}

/// The number of whole chunks of `chunk_size` samples in `len` samples.
pub open spec fn chunk_count(len: int, chunk_size: int) -> int {
    len / chunk_size
}

/// The samples of chunk `position`.
pub open spec fn chunk_at<S>(samples: Seq<S>, chunk_size: int, position: int) -> Seq<S> {
    samples.subrange(position * chunk_size, (position + 1) * chunk_size)
}

impl<S, M> WaveTable<S, M> {
    /// All samples of all chunks.
    pub closed spec fn samples(self) -> Seq<S> {
        self.buffer@
    }

    pub closed spec fn chunk_len_spec(self) -> usize {
        self.chunk_size
    }

    pub closed spec fn position_spec(self) -> usize {
        self.position
    }

    pub closed spec fn interpolation_spec(self) -> M {
        self.interpolation
    }
}

proof fn lemma_chunk_fits(len: int, chunk_size: int, position: int)
    requires
        chunk_size > 0,
        0 <= position < len / chunk_size,
    ensures
        0 <= position * chunk_size,
        (position + 1) * chunk_size <= len,
        position * chunk_size + chunk_size <= len,
        (position + 1) * chunk_size == position * chunk_size + chunk_size,
{
    vstd::arithmetic::div_mod::lemma_fundamental_div_mod(len, chunk_size);
    assert(0 <= position * chunk_size) by (nonlinear_arith)
        requires position >= 0, chunk_size > 0;
    assert((position + 1) * chunk_size <= (len / chunk_size) * chunk_size) by (nonlinear_arith)
        requires position + 1 <= len / chunk_size, chunk_size > 0;
    assert(len % chunk_size >= 0);
    assert((position + 1) * chunk_size == position * chunk_size + chunk_size) by (nonlinear_arith);
}

impl<S: Copy, M: Copy> WaveTable<S, M> {
    /// The number of samples over all chunks.
    pub fn len(&self) -> (r: usize)
        ensures
            r == self.samples().len(),
    {
        self.buffer.len()
    }

    /// The number of samples in one chunk.
    pub fn chunk_len(&self) -> (r: usize)
        ensures
            r == self.chunk_len_spec(),
    {
        self.chunk_size
    }

    pub fn is_empty(&self) -> (r: bool)
        ensures
            r == (self.samples().len() == 0),
    {
        self.len() == 0
    }

    /// The method used to read between samples.
    pub fn interpolation(&self) -> (r: M)
        ensures
            r == self.interpolation_spec(),
    {
        self.interpolation
    }

    /// The chunk that plays.
    pub fn position(&self) -> (r: usize)
        ensures
            r == self.position_spec(),
    {
        self.position
    }

    /// The number of whole chunks.
    pub fn chunks(&self) -> (r: usize)
        requires
            self.chunk_len_spec() > 0,
        ensures
            r == chunk_count(self.samples().len() as int, self.chunk_len_spec() as int),
    {
        self.buffer.len() / self.chunk_size
    }

    /// The positions that `set_position` accepts, first and last; `(0, 0)` when the
    /// table holds no whole chunk.
    pub fn position_range(&self) -> (r: (usize, usize))
        requires
            self.chunk_len_spec() > 0,
        ensures
            r.0 == 0,
            chunk_count(self.samples().len() as int, self.chunk_len_spec() as int) > 0 ==> r.1
                == chunk_count(self.samples().len() as int, self.chunk_len_spec() as int) - 1,
            chunk_count(self.samples().len() as int, self.chunk_len_spec() as int) == 0 ==> r.1 == 0,
    {
        let chunks = self.chunks();
        if chunks > 0 {
            (0, chunks - 1)
        } else {
            (0, 0)
        }
    }

    /// Selects the chunk that plays.
    pub fn set_position(&mut self, position: usize) -> (r: Result<(), Error>)
        requires
            old(self).chunk_len_spec() > 0,
        ensures
            final(self).samples() == old(self).samples(),
            final(self).chunk_len_spec() == old(self).chunk_len_spec(),
            final(self).interpolation_spec() == old(self).interpolation_spec(),
            position < chunk_count(old(self).samples().len() as int, old(self).chunk_len_spec() as int)
                ==> r is Ok && final(self).position_spec() == position,
            position >= chunk_count(old(self).samples().len() as int, old(self).chunk_len_spec() as int)
                ==> (r matches Err(Error::Generic(e)) && e@ == position_message())
                && final(self).position_spec() == old(self).position_spec(),
    {
        if position >= self.chunks() {
            let e = Error::from("Position should be less than chunks count");
            proof {
                reveal_strlit("Position should be less than chunks count");
            }
            Err(e)
        } else {
            self.position = position;
            Ok(())
        }
    }

    /// The samples of the chunk that plays.
    pub fn get_slice(&self) -> (r: Result<&[S], Error>)
        requires
            self.chunk_len_spec() > 0,
        ensures
            self.position_spec() < chunk_count(self.samples().len() as int, self.chunk_len_spec() as int)
                ==> (r matches Ok(s) && s@ == chunk_at(
                self.samples(),
                self.chunk_len_spec() as int,
                self.position_spec() as int,
            )),
            self.position_spec() >= chunk_count(self.samples().len() as int, self.chunk_len_spec() as int)
                ==> (r matches Err(Error::Generic(e)) && e@ == missing_chunk_message(self.position_spec())),
    {
        let chunks = self.chunks();
        let total = self.buffer.len();
        if self.position < chunks {
            proof {
                lemma_chunk_fits(self.samples().len() as int, self.chunk_size as int, self.position as int);
                // The chunk ends within the buffer, so its bounds fit in `usize`.
                assert((self.position + 1) * self.chunk_size <= total);
            }
            let start = self.position * self.chunk_size;
            let end = start + self.chunk_size;
            Ok(vstd::slice::slice_subrange(self.buffer.get_slice(), start, end))
        } else {
            Err(Error::Generic(format_missing_chunk(self.position)))
        }
    }

    /// The samples of the chunk that plays, for writing.
    pub fn get_slice_mut(&mut self) -> (r: Result<&mut [S], Error>)
        requires
            old(self).chunk_len_spec() > 0,
        ensures
            final(self).chunk_len_spec() == old(self).chunk_len_spec(),
            final(self).position_spec() == old(self).position_spec(),
            final(self).interpolation_spec() == old(self).interpolation_spec(),
            old(self).position_spec() < chunk_count(
                old(self).samples().len() as int,
                old(self).chunk_len_spec() as int,
            ) ==> ({
                let start = old(self).position_spec() * old(self).chunk_len_spec();
                let end = start + old(self).chunk_len_spec();
                r matches Ok(s) && s@ == chunk_at(
                    old(self).samples(),
                    old(self).chunk_len_spec() as int,
                    old(self).position_spec() as int,
                ) && final(self).samples() == old(self).samples().subrange(0, start) + final(s)@
                    + old(self).samples().subrange(end, old(self).samples().len() as int)
            }),
            old(self).position_spec() >= chunk_count(
                old(self).samples().len() as int,
                old(self).chunk_len_spec() as int,
            ) ==> (r matches Err(Error::Generic(e)) && e@ == missing_chunk_message(
                old(self).position_spec(),
            ) && final(self).samples() == old(self).samples()),
    {
        let chunks = self.chunks();
        let total = self.buffer.len();
        if self.position < chunks {
            proof {
                lemma_chunk_fits(self.samples().len() as int, self.chunk_size as int, self.position as int);
                // The chunk ends within the buffer, so its bounds fit in `usize`.
                assert((self.position + 1) * self.chunk_size <= total);
            }
            let start = self.position * self.chunk_size;
            let chunk = self.chunk_size;
            let slice = self.buffer.get_slice_mut();
            let (_head, rest) = slice.split_at_mut(start);
            let (mid, _tail) = rest.split_at_mut(chunk);
            Ok(mid)
        } else {
            Err(Error::Generic(format_missing_chunk(self.position)))
        }
    }

    /// Replaces all samples and the chunk size, and selects the first chunk.
    pub fn load_new(&mut self, samples: Vec<S>, chunk_size: usize)
        ensures
            final(self).samples() == samples@,
            final(self).chunk_len_spec() == chunk_size,
            final(self).position_spec() == 0,
            final(self).interpolation_spec() == old(self).interpolation_spec(),
    {
        self.buffer = SampleBufferMono::from_vec(samples);
        self.chunk_size = chunk_size;
        self.position = 0;
    }
}

} // verus!

verus! {

impl<S, M> WaveTableBuilder<S, M> {
    /// The samples, if set.
    pub closed spec fn buffer_spec(self) -> Option<Seq<S>> {
        match self.buffer {
            Some(b) => Some(b@),
            None => None,
        }
    }

    pub closed spec fn chunk_size_spec(self) -> Option<usize> {
        self.chunk_size
    }

    pub closed spec fn position_spec(self) -> Option<usize> {
        self.position
    }

    pub closed spec fn interpolation_spec(self) -> Option<M> {
        self.interpolation
    }
}

impl<S: Copy, M: Copy + Default> WaveTableBuilder<S, M> {
    /// A builder with nothing set.
    pub fn new() -> (r: Self)
        ensures
            r.buffer_spec() is None,
            r.chunk_size_spec() is None,
            r.position_spec() is None,
            r.interpolation_spec() is None,
    {
        WaveTableBuilder { buffer: None, chunk_size: None, position: None, interpolation: None }
    }

    pub fn set_buffer(&mut self, buffer: SampleBufferMono<S>) -> (r: &mut Self)
        ensures
            r.buffer_spec() == Some(buffer@),
            r.chunk_size_spec() == old(self).chunk_size_spec(),
            r.position_spec() == old(self).position_spec(),
            r.interpolation_spec() == old(self).interpolation_spec(),
            *final(self) == *final(r),
    {
        self.buffer = Some(buffer);
        self
    }

    pub fn set_chunk_size(&mut self, size: usize) -> (r: &mut Self)
        ensures
            r.buffer_spec() == old(self).buffer_spec(),
            r.chunk_size_spec() == Some(size),
            r.position_spec() == old(self).position_spec(),
            r.interpolation_spec() == old(self).interpolation_spec(),
            *final(self) == *final(r),
    {
        self.chunk_size = Some(size);
        self
    }

    pub fn set_position(&mut self, position: usize) -> (r: &mut Self)
        ensures
            r.buffer_spec() == old(self).buffer_spec(),
            r.chunk_size_spec() == old(self).chunk_size_spec(),
            r.position_spec() == Some(position),
            r.interpolation_spec() == old(self).interpolation_spec(),
            *final(self) == *final(r),
    {
        self.position = Some(position);
        self
    }

    pub fn set_interpolation(&mut self, interpolation: M) -> (r: &mut Self)
        ensures
            r.buffer_spec() == old(self).buffer_spec(),
            r.chunk_size_spec() == old(self).chunk_size_spec(),
            r.position_spec() == old(self).position_spec(),
            r.interpolation_spec() == Some(interpolation),
            *final(self) == *final(r),
    {
        self.interpolation = Some(interpolation);
        self
    }

    /// Sets a copy of `a` as the samples, in chunks of `chunk_size`.
    pub fn from_array(&mut self, a: &[S], chunk_size: usize) -> (r: &mut Self)
        ensures
            r.buffer_spec() == Some(a@),
            r.chunk_size_spec() == Some(chunk_size),
            r.position_spec() == old(self).position_spec(),
            r.interpolation_spec() == old(self).interpolation_spec(),
            *final(self) == *final(r),
    {
        let buffer = SampleBufferMono::from_array(a);
        self.buffer = Some(buffer);
        self.chunk_size = Some(chunk_size);
        self
    }

    /// The wavetable. The samples and the chunk size are taken out of the builder
    /// (each as far as building got); the interpolation method is taken too, and
    /// `M::default()` stands in when none was set; the position (0 when unset)
    /// stays in the builder.
    pub fn build(&mut self) -> (r: Result<WaveTable<S, M>, Error>)
        requires
            old(self).buffer_spec() is Some && old(self).chunk_size_spec() is Some
                ==> old(self).chunk_size_spec().unwrap() != 0,
        ensures
            final(self).position_spec() == old(self).position_spec(),
            old(self).buffer_spec() is None ==> {
                &&& r == Err::<WaveTable<S, M>, Error>(Error::Specify("buffer"))
                &&& *final(self) == *old(self)
            },
            old(self).buffer_spec() is Some && old(self).chunk_size_spec() is None ==> {
                &&& r == Err::<WaveTable<S, M>, Error>(Error::Specify("chunk size"))
                &&& final(self).buffer_spec() is None
                &&& final(self).chunk_size_spec() is None
                &&& final(self).interpolation_spec() == old(self).interpolation_spec()
            },
            old(self).buffer_spec() is Some && old(self).chunk_size_spec() is Some ==> ({
                let samples = old(self).buffer_spec().unwrap();
                let chunk_size = old(self).chunk_size_spec().unwrap();
                &&& final(self).buffer_spec() is None
                &&& final(self).chunk_size_spec() is None
                &&& (samples.len() as int) % (chunk_size as int) != 0 ==> {
                    &&& r matches Err(Error::Generic(e)) && e@ == split_message()
                    &&& final(self).interpolation_spec() == old(self).interpolation_spec()
                }
                &&& (samples.len() as int) % (chunk_size as int) == 0 ==> {
                    &&& final(self).interpolation_spec() is None
                    &&& r matches Ok(t) && {
                        &&& t.samples() == samples
                        &&& t.chunk_len_spec() == chunk_size
                        &&& t.position_spec() == match old(self).position_spec() {
                            Some(p) => p,
                            None => 0,
                        }
                        &&& match old(self).interpolation_spec() {
                            Some(m) => t.interpolation_spec() == m,
                            None => call_ensures(M::default, (), t.interpolation_spec()),
                        }
                    }
                }
            }),
    {
        let buffer = match self.buffer.take() {
            Some(b) => b,
            None => return Err(Error::Specify("buffer")),
        };
        let chunk_size = match self.chunk_size.take() {
            Some(c) => c,
            None => return Err(Error::Specify("chunk size")),
        };
        if buffer.len() % chunk_size != 0 {
            let e = Error::from("Cannot split sample buffer into the same length chunks");
            proof {
                reveal_strlit("Cannot split sample buffer into the same length chunks");
            }
            return Err(e);
        }
        let position = match self.position {
            Some(p) => p,
            None => 0,
        };
        let interpolation = match self.interpolation.take() {
            Some(m) => m,
            None => M::default(),
        };
        Ok(WaveTable { buffer, chunk_size, position, interpolation })
    }
}

} // verus!
