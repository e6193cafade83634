use vstd::prelude::*;
use vstd::std_specs::iter::IteratorSpec;
use vstd::std_specs::ops::AddSpec;

use crate::error::Error;

verus! {

/// The samples of one channel. `S` is the sample type.
pub struct SampleBufferMono<S> {
    samples: Vec<S>,
}

/// Samples in several channels.
pub struct SampleBuffer<S> {
    channels: u32,
    buffers: Vec<SampleBufferMono<S>>,
    samples_count: usize,
}

/// Collects a buffer's channel count and length, then builds it.
pub struct SampleBufferBuilder {
    channels: Option<u32>,
    samples: Option<usize>,
}

/// The message of the error for a sample index past the end of a channel.
pub open spec fn sample_index_message() -> Seq<char> {
    "Index of sample out of buffer"@
}

/// The message of the error for a sample index past the end of a channel, when
/// a mutable reference was asked for.
pub open spec fn sample_ref_message() -> Seq<char> {
    "Cannot get mutable sample by index"@
}

/// The message of the error for a channel past the last one.
pub open spec fn channel_index_message() -> Seq<char> {
    "Channel index out of buffer size"@
}

/// The message of the error for combining buffers of different lengths.
pub open spec fn length_mismatch_message() -> Seq<char> {
    "Buffers has different length"@
}

impl<S> View for SampleBufferMono<S> {
    type V = Seq<S>;

    closed spec fn view(&self) -> Seq<S> {
        self.samples@
    }
}

impl<S: Copy> SampleBufferMono<S> {
    /// `s` samples, all of the default value (silence, for audio samples).
    pub fn new(s: usize) -> (r: Self) where S: Default
        ensures
            r@.len() == s,
            forall|i: int| 0 <= i < s ==> call_ensures(S::default, (), #[trigger] r@[i]),
    {
        let silence = S::default();
        let mut samples: Vec<S> = Vec::new();
        let mut i: usize = 0;
        while i < s
            invariant
                0 <= i <= s,
                samples@ == Seq::new(i as nat, |j: int| silence),
            decreases s - i,
        {
            samples.push(silence);
            i = i + 1;
            proof {
                assert(samples@ =~= Seq::new(i as nat, |j: int| silence));
            }
        }
        proof {
            assert forall|i: int| 0 <= i < s implies call_ensures(S::default, (), #[trigger] samples@[i]) by {
                assert(samples@[i] == silence);
            }
        }
        Self { samples }
    }

    pub fn len(&self) -> (r: usize)
        ensures
            r == self@.len(),
    {
        self.samples.len()
    }

    pub fn is_empty(&self) -> (r: bool)
        ensures
            r == (self@.len() == 0),
    {
        self.len() == 0
    }

    /// The sample at `index`.
    pub fn at(&self, index: usize) -> (r: Result<S, Error>)
        ensures
            index < self@.len() ==> r == Ok::<S, Error>(self@[index as int]),
            index >= self@.len() ==> (r matches Err(Error::Generic(m)) && m@ == sample_index_message()),
    {
        if index < self.samples.len() {
            Ok(self.samples[index])
        } else {
            let e = Error::from("Index of sample out of buffer");
            proof {
                reveal_strlit("Index of sample out of buffer");
            }
            Err(e)
        }
    }

    /// Sets every sample to `value`; returns how many there are.
    pub fn fill(&mut self, value: S) -> (r: usize)
        ensures
            final(self)@ == Seq::new(old(self)@.len(), |i: int| value),
            r == old(self)@.len(),
    {
        let n = self.samples.len();
        let mut i: usize = 0;
        while i < n
            invariant
                0 <= i <= n,
                n == self.samples.len(),
                forall|j: int| 0 <= j < i ==> self.samples@[j] == value,
            decreases n - i,
        {
            self.samples.set(i, value);
            i = i + 1;
        }
        proof {
            assert(self.samples@ =~= Seq::new(n as nat, |j: int| value));
        }
        n
    }

    /// A mutable reference to the sample at `index`.
    pub fn get_mut(&mut self, index: usize) -> (r: Result<&mut S, Error>)
        ensures
            index < old(self)@.len() ==> (r matches Ok(m) && *m == old(self)@[index as int]
                && final(self)@ == old(self)@.update(index as int, *final(m))),
            index >= old(self)@.len() ==> (r matches Err(Error::Generic(e)) && e@
                == sample_ref_message() && final(self)@ == old(self)@),
    {
        if index < self.samples.len() {
            Ok(&mut self.samples[index])
        } else {
            let e = Error::from("Cannot get mutable sample by index");
            proof {
                reveal_strlit("Cannot get mutable sample by index");
            }
            Err(e)
        }
    }

    /// Sets the sample at `index` to `value`.
    pub fn set_at(&mut self, index: usize, value: S) -> (r: Result<(), Error>)
        ensures
            index < old(self)@.len() ==> r is Ok && final(self)@ == old(self)@.update(
                index as int,
                value,
            ),
            index >= old(self)@.len() ==> (r matches Err(Error::Generic(e)) && e@
                == sample_ref_message() && final(self)@ == old(self)@),
    {
        if index < self.samples.len() {
            self.samples.set(index, value);
            Ok(())
        } else {
            let e = Error::from("Cannot get mutable sample by index");
            proof {
                reveal_strlit("Cannot get mutable sample by index");
            }
            Err(e)
        }
    }

    /// A buffer holding a copy of `a`.
    pub fn from_array(a: &[S]) -> (r: Self)
        ensures
            r@ == a@,
    {
        let samples = vstd::slice::slice_to_vec(a);
        Self { samples }
    }

    /// A buffer holding the samples of `a`.
    pub fn from_vec(a: Vec<S>) -> (r: Self)
        ensures
            r@ == a@,
    {
        Self { samples: a }
    }

    /// Reads the samples in order.
    pub fn iter(&self) -> (r: std::slice::Iter<'_, S>)
        ensures
            r.remaining() == self@.as_ref(),
    {
        let slice = self.samples.as_slice();
        let it = slice.iter();
        proof {
            vstd::std_specs::slice::axiom_spec_slice_iter(slice);
        }
        it
    }

    /// All samples, for writing.
    pub fn get_slice_mut(&mut self) -> (r: &mut [S])
        ensures
            r@ == old(self)@,
            final(r)@ == final(self)@,
    {
        self.samples.as_mut_slice()
    }

    /// All samples.
    pub fn get_slice(&self) -> (r: &[S])
        ensures
            r@ == self@,
    {
        self.samples.as_slice()
    }
}

impl<S> SampleBuffer<S> {
    #[verifier::type_invariant]
    spec fn one_buffer_per_channel(self) -> bool {
        self.buffers@.len() == self.channels
    }

    /// The channel count the buffer was made with.
    pub closed spec fn channels_spec(&self) -> u32 {
        self.channels
    }

    /// The samples, channel by channel.
    pub closed spec fn data(&self) -> Seq<Seq<S>> {
        Seq::new(self.buffers@.len(), |c: int| self.buffers@[c]@)
    }

    /// The length (samples per channel) the buffer was made with.
    pub closed spec fn len_spec(&self) -> usize {
        self.samples_count
    }
}

impl<S: Copy> SampleBuffer<S> {
    pub fn channels(&self) -> (r: u32)
        ensures
            r == self.channels_spec(),
            r == self.data().len(),
    {
        proof {
            use_type_invariant(self);
        }
        self.channels
    }

    pub fn len(&self) -> (r: usize)
        ensures
            r == self.len_spec(),
    {
        self.samples_count
    }

    pub fn is_empty(&self) -> (r: bool)
        ensures
            r == (self.len_spec() == 0),
    {
        self.len() == 0
    }

    /// The samples of `channel`.
    pub fn get_buffer_ref(&self, channel: u32) -> (r: Result<&SampleBufferMono<S>, Error>)
        ensures
            channel < self.data().len() ==> (r matches Ok(b) && b@ == self.data()[channel as int]),
            channel >= self.data().len() ==> (r matches Err(Error::Generic(e)) && e@
                == channel_index_message()),
    {
        if (channel as usize) < self.buffers.len() {
            Ok(&self.buffers[channel as usize])
        } else {
            let e = Error::from("Channel index out of buffer size");
            proof {
                reveal_strlit("Channel index out of buffer size");
            }
            Err(e)
        }
    }

    /// The samples of `channel`, for writing.
    pub fn get_mut_buffer_ref(&mut self, channel: u32) -> (r: Result<&mut SampleBufferMono<S>, Error>)
        ensures
            channel < old(self).data().len() ==> (r matches Ok(b) && b@ == old(self).data()[channel as int]
                && final(self).data() == old(self).data().update(channel as int, final(b)@)
                && final(self).channels_spec() == old(self).channels_spec()
                && final(self).len_spec() == old(self).len_spec()),
            channel >= old(self).data().len() ==> (r matches Err(Error::Generic(e)) && e@
                == channel_index_message() && *final(self) == *old(self)),
    {
        proof {
            use_type_invariant(&*self);
        }
        if (channel as usize) < self.buffers.len() {
            let ghost before = *self;
            let r = &mut self.buffers[channel as usize];
            proof {
                assert(after_borrow(self).buffers@ == before.buffers@.update(channel as int, *final(r)));
                assert(after_borrow(self).data() =~= before.data().update(channel as int, final(r)@));
            }
            Ok(r)
        } else {
            let e = Error::from("Channel index out of buffer size");
            proof {
                reveal_strlit("Channel index out of buffer size");
            }
            Err(e)
        }
    }
}

impl<S: Copy> SampleBuffer<S> {
    /// The sample at `index` of `channel`.
    pub fn at(&self, channel: u32, index: usize) -> (r: Result<S, Error>)
        ensures
            channel < self.data().len() && index < self.data()[channel as int].len() ==> r
                == Ok::<S, Error>(self.data()[channel as int][index as int]),
            channel >= self.data().len() ==> (r matches Err(Error::Generic(e)) && e@
                == channel_index_message()),
            channel < self.data().len() && index >= self.data()[channel as int].len() ==> (r matches Err(
                Error::Generic(e),
            ) && e@ == sample_index_message()),
    {
        let sample = self.get_buffer_ref(channel)?.at(index)?;
        Ok(sample)
    }

    /// Sets the sample at `index` of `channel` to `value`.
    pub fn set_at(&mut self, channel: u32, index: usize, value: S) -> (r: Result<(), Error>)
        ensures
            final(self).channels_spec() == old(self).channels_spec(),
            final(self).len_spec() == old(self).len_spec(),
            channel < old(self).data().len() && index < old(self).data()[channel as int].len() ==> {
                &&& r is Ok
                &&& final(self).data() == old(self).data().update(
                    channel as int,
                    old(self).data()[channel as int].update(index as int, value),
                )
            },
            channel >= old(self).data().len() ==> (r matches Err(Error::Generic(e)) && e@
                == channel_index_message()),
            channel < old(self).data().len() && index >= old(self).data()[channel as int].len()
                ==> (r matches Err(Error::Generic(e)) && e@ == sample_ref_message()),
            r is Err ==> final(self).data() == old(self).data(),
    {
        self.get_mut_buffer_ref(channel)?.set_at(index, value)?;
        Ok(())
    }

    /// Sets every sample of every channel to `value`.
    pub fn fill(&mut self, value: S)
        ensures
            final(self).channels_spec() == old(self).channels_spec(),
            final(self).len_spec() == old(self).len_spec(),
            final(self).data().len() == old(self).data().len(),
            forall|c: int|
                0 <= c < old(self).data().len() ==> #[trigger] final(self).data()[c] == Seq::new(
                    old(self).data()[c].len(),
                    |i: int| value,
                ),
    {
        proof {
            use_type_invariant(&*self);
        }
        let ghost before = self.data();
        let n = self.channels;
        let mut c: u32 = 0;
        while c < n
            invariant
                0 <= c <= n,
                n == self.channels_spec(),
                n == before.len(),
                self.data().len() == before.len(),
                self.channels_spec() == old(self).channels_spec(),
                self.len_spec() == old(self).len_spec(),
                forall|k: int|
                    0 <= k < c ==> #[trigger] self.data()[k] == Seq::new(
                        before[k].len(),
                        |i: int| value,
                    ),
                forall|k: int| c <= k < n ==> #[trigger] self.data()[k] == before[k],
            decreases n - c,
        {
            let buffer = self.get_mut_buffer_ref(c).unwrap();
            buffer.fill(value);
            c = c + 1;
        }
    }

    /// Reads the samples of `channel`.
    pub fn iter(&self, channel: u32) -> (r: Result<std::slice::Iter<'_, S>, Error>)
        ensures
            channel >= self.data().len() ==> (r matches Err(Error::Generic(e)) && e@
                == channel_index_message()),
            channel < self.data().len() ==> (r matches Ok(it) && it.remaining()
                == self.data()[channel as int].as_ref()),
    {
        let buffer = self.get_buffer_ref(channel)?;
        let slice = buffer.get_slice();
        let it = slice.iter();
        proof {
            vstd::std_specs::slice::axiom_spec_slice_iter(slice);
        }
        Ok(it)
    }
}

impl<S: Copy + core::ops::Add<Output = S>> SampleBuffer<S> {
    /// Adds `value` to the sample at `index` of `channel`.
    pub fn add_at(&mut self, channel: u32, index: usize, value: S) -> (r: Result<(), Error>)
        requires
            channel < old(self).data().len() && index < old(self).data()[channel as int].len()
                ==> old(self).data()[channel as int][index as int].add_req(value),
        ensures
            final(self).channels_spec() == old(self).channels_spec(),
            final(self).len_spec() == old(self).len_spec(),
            channel < old(self).data().len() && index < old(self).data()[channel as int].len() ==> {
                &&& r is Ok
                &&& final(self).data() == old(self).data().update(
                    channel as int,
                    old(self).data()[channel as int].update(
                        index as int,
                        final(self).data()[channel as int][index as int],
                    ),
                )
                &&& S::obeys_add_spec() ==> final(self).data()[channel as int][index as int]
                    == old(self).data()[channel as int][index as int].add_spec(value)
            },
            channel >= old(self).data().len() ==> (r matches Err(Error::Generic(e)) && e@
                == channel_index_message()),
            channel < old(self).data().len() && index >= old(self).data()[channel as int].len()
                ==> (r matches Err(Error::Generic(e)) && e@ == sample_ref_message()),
            r is Err ==> final(self).data() == old(self).data(),
    {
        let sample = self.get_mut_buffer_ref(channel)?.get_mut(index)?;
        *sample = *sample + value;
        Ok(())
    }
}

impl<S: Copy + core::ops::Add<Output = S>> SampleBuffer<S> {
    /// The samples that `combine` adds, sample by sample, are all addable:
    /// every channel of `self` exists in `other` with at least as many samples.
    pub open spec fn combinable(self, other: SampleBuffer<S>) -> bool {
        &&& forall|c: int|
            0 <= c < self.data().len() ==> c < other.data().len() && #[trigger] other.data()[c].len()
                >= self.data()[c].len()
        &&& forall|c: int, i: int|
            0 <= c < self.data().len() && 0 <= i < self.data()[c].len()
                ==> #[trigger] self.data()[c][i].add_req(other.data()[c][i])
    }

    /// Adds `buffer` into this buffer, sample by sample, channel by channel.
    pub fn combine(&mut self, buffer: &SampleBuffer<S>) -> (r: Result<(), Error>)
        requires
            old(self).len_spec() == buffer.len_spec() ==> old(self).combinable(*buffer),
        ensures
            final(self).channels_spec() == old(self).channels_spec(),
            final(self).len_spec() == old(self).len_spec(),
            old(self).len_spec() != buffer.len_spec() ==> {
                &&& r matches Err(Error::Generic(e)) && e@ == length_mismatch_message()
                &&& final(self).data() == old(self).data()
            },
            old(self).len_spec() == buffer.len_spec() ==> {
                &&& r is Ok
                &&& final(self).data().len() == old(self).data().len()
                &&& forall|c: int|
                    0 <= c < old(self).data().len() ==> #[trigger] final(self).data()[c].len()
                        == old(self).data()[c].len()
                &&& S::obeys_add_spec() ==> forall|c: int, i: int|
                    0 <= c < old(self).data().len() && 0 <= i < old(self).data()[c].len()
                        ==> #[trigger] final(self).data()[c][i] == old(self).data()[c][i].add_spec(
                        buffer.data()[c][i],
                    )
            },
    {
        if self.len() != buffer.len() {
            let e = Error::from("Buffers has different length");
            proof {
                reveal_strlit("Buffers has different length");
            }
            return Err(e);
        }
        proof {
            use_type_invariant(&*self);
            use_type_invariant(buffer);
        }
        let ghost before = self.data();
        let n = self.channels;
        let mut c: u32 = 0;
        while c < n
            invariant
                0 <= c <= n,
                n == self.channels_spec(),
                n == before.len(),
                before == old(self).data(),
                old(self).combinable(*buffer),
                self.data().len() == before.len(),
                self.channels_spec() == old(self).channels_spec(),
                self.len_spec() == old(self).len_spec(),
                forall|k: int| 0 <= k < n ==> #[trigger] self.data()[k].len() == before[k].len(),
                S::obeys_add_spec() ==> forall|k: int, i: int|
                    0 <= k < c && 0 <= i < before[k].len() ==> #[trigger] self.data()[k][i]
                        == before[k][i].add_spec(buffer.data()[k][i]),
                forall|k: int| c <= k < n ==> #[trigger] self.data()[k] == before[k],
            decreases n - c,
        {
            let len = self.get_buffer_ref(c).unwrap().len();
            proof {
                let cc = c as int;
                assert(0 <= cc < old(self).data().len());
                assert(old(self).combinable(*buffer));
                assert(cc < buffer.data().len() && buffer.data()[cc].len() >= old(self).data()[cc].len());
            }
            let mut i: usize = 0;
            while i < len
                invariant
                    0 <= c < n,
                    0 <= i <= len,
                    len == before[c as int].len(),
                    c < buffer.data().len(),
                    buffer.data()[c as int].len() >= len,
                    n == self.channels_spec(),
                    n == before.len(),
                    old(self).combinable(*buffer),
                    before == old(self).data(),
                    self.data().len() == before.len(),
                    self.channels_spec() == old(self).channels_spec(),
                    self.len_spec() == old(self).len_spec(),
                    forall|k: int| 0 <= k < n ==> #[trigger] self.data()[k].len() == before[k].len(),
                    S::obeys_add_spec() ==> forall|k: int, j: int|
                        0 <= k < c && 0 <= j < before[k].len() ==> #[trigger] self.data()[k][j]
                            == before[k][j].add_spec(buffer.data()[k][j]),
                    S::obeys_add_spec() ==> forall|j: int|
                        0 <= j < i ==> #[trigger] self.data()[c as int][j] == before[c as int][j].add_spec(
                            buffer.data()[c as int][j],
                        ),
                    forall|j: int| i <= j < len ==> #[trigger] self.data()[c as int][j] == before[c as int][j],
                    forall|k: int| c < k < n ==> #[trigger] self.data()[k] == before[k],
                decreases len - i,
            {
                let other = buffer.at(c, i).unwrap();
                proof {
                    assert(before[c as int][i as int].add_req(buffer.data()[c as int][i as int]));
                }
                let ghost mid = self.data();
                let _ = self.add_at(c, i, other);
                proof {
                    assert forall|k: int| 0 <= k < n implies #[trigger] self.data()[k].len()
                        == before[k].len() by {
                        if k == c {
                        } else {
                            assert(self.data()[k] == mid[k]);
                        }
                    }
                }
                i = i + 1;
            }
            c = c + 1;
        }
        Ok(())
    }
}

/// What `set_at` writes, `at` reads back, and no other sample changes: for a buffer
/// `after` whose samples are those of `before` with `value` set at `index` of
/// `channel` (as `set_at` leaves them), reading that position gives `value` and
/// reading any other position gives what `before` held there.
pub proof fn lemma_set_then_at<S>(
    before: SampleBuffer<S>,
    after: SampleBuffer<S>,
    channel: u32,
    index: usize,
    value: S,
)
    requires
        channel < before.data().len(),
        index < before.data()[channel as int].len(),
        after.data() == before.data().update(
            channel as int,
            before.data()[channel as int].update(index as int, value),
        ),
    ensures
        channel < after.data().len(),
        index < after.data()[channel as int].len(),
        after.data()[channel as int][index as int] == value,
        forall|c: int, i: int|
            0 <= c < before.data().len() && 0 <= i < before.data()[c].len() && (c != channel || i
                != index) ==> after.data()[c][i] == before.data()[c][i],
{
}

/// `b` has `c` channels of `n` samples each, and every sample is a value that
/// `S::default` gives.
pub open spec fn default_filled<S: Default>(b: SampleBuffer<S>, c: u32, n: usize) -> bool {
    &&& b.channels_spec() == c
    &&& b.len_spec() == n
    &&& b.data().len() == c
    &&& forall|k: int|
        0 <= k < c ==> #[trigger] b.data()[k].len() == n && forall|i: int|
            0 <= i < n ==> call_ensures(S::default, (), #[trigger] b.data()[k][i])
}

/// Building twice with the same settings gives the same samples, where the
/// sample type has one default value (as the integers do).
pub proof fn lemma_builds_agree<S: Default>(a: SampleBuffer<S>, b: SampleBuffer<S>, c: u32, n: usize)
    requires
        forall|x: S, y: S|
            call_ensures(S::default, (), x) && call_ensures(S::default, (), y) ==> x == y,
        default_filled(a, c, n),
        default_filled(b, c, n),
    ensures
        a.data() == b.data(),
        a.channels_spec() == b.channels_spec(),
        a.len_spec() == b.len_spec(),
{
    assert forall|k: int| 0 <= k < c implies #[trigger] a.data()[k] == b.data()[k] by {
        assert(a.data()[k].len() == n);
        assert(b.data()[k].len() == n);
        assert forall|i: int| 0 <= i < n implies a.data()[k][i] == b.data()[k][i] by {
            assert(call_ensures(S::default, (), a.data()[k][i]));
            assert(call_ensures(S::default, (), b.data()[k][i]));
        }
        assert(a.data()[k] =~= b.data()[k]);
    }
    assert(a.data() =~= b.data());
}

impl SampleBufferBuilder {
    /// The channel count, if it has been set.
    pub closed spec fn channels_spec(&self) -> Option<u32> {
        self.channels
    }

    /// The length, if it has been set.
    pub closed spec fn samples_spec(&self) -> Option<usize> {
        self.samples
    }

    /// A builder with nothing set.
    pub fn new() -> (r: Self)
        ensures
            r.channels_spec() is None,
            r.samples_spec() is None,
    {
        Self { channels: None, samples: None }
    }

    /// Sets the channel count.
    pub fn set_channels(&mut self, n: u32) -> (r: &mut Self)
        ensures
            r.channels_spec() == Some(n),
            r.samples_spec() == old(self).samples_spec(),
            *final(self) == *final(r),
    {
        self.channels = Some(n);
        self
    }

    /// Sets the length.
    pub fn set_samples(&mut self, n: usize) -> (r: &mut Self)
        ensures
            r.samples_spec() == Some(n),
            r.channels_spec() == old(self).channels_spec(),
            *final(self) == *final(r),
    {
        self.samples = Some(n);
        self
    }

    /// A one-channel buffer holding a copy of `a`.
    pub fn from_array<S: Copy>(a: &[S]) -> (r: SampleBuffer<S>)
        ensures
            r.channels_spec() == 1,
            r.len_spec() == a@.len(),
            r.data() == seq![a@],
    {
        let buffers = vec![SampleBufferMono::from_array(a)];
        let r = SampleBuffer { channels: 1, buffers, samples_count: a.len() };
        proof {
            assert(r.data() =~= seq![a@]);
        }
        r
    }

    /// A one-channel buffer holding the samples of `a`.
    pub fn from_vec<S: Copy>(a: Vec<S>) -> (r: SampleBuffer<S>)
        ensures
            r.channels_spec() == 1,
            r.len_spec() == a@.len(),
            r.data() == seq![a@],
    {
        let samples_count = a.len();
        let ghost v = a@;
        let buffers = vec![SampleBufferMono::from_vec(a)];
        let r = SampleBuffer { channels: 1, samples_count, buffers };
        proof {
            assert(r.data() =~= seq![v]);
        }
        r
    }

    /// A buffer of the set channel count and length, every sample of the default
    /// value (silence, for audio samples).
    pub fn build<S: Copy + Default>(&mut self) -> (r: Result<SampleBuffer<S>, Error>)
        ensures
            *final(self) == *old(self),
            old(self).channels_spec() is None ==> r == Err::<SampleBuffer<S>, Error>(
                Error::Specify("channels count"),
            ),
            old(self).channels_spec() is Some && old(self).samples_spec() is None ==> r == Err::<
                SampleBuffer<S>,
                Error,
            >(Error::Specify("samples count")),
            old(self).channels_spec() is Some && old(self).samples_spec() is Some ==> ({
                let c = old(self).channels_spec().unwrap();
                let n = old(self).samples_spec().unwrap();
                r matches Ok(b) && default_filled(b, c, n)
            }),
    {
        let channels = match self.channels {
            Some(c) => c,
            None => return Err(Error::Specify("channels count")),
        };
        let samples = match self.samples {
            Some(n) => n,
            None => return Err(Error::Specify("samples count")),
        };
        let mut buffers: Vec<SampleBufferMono<S>> = Vec::new();
        let mut c: u32 = 0;
        while c < channels
            invariant
                0 <= c <= channels,
                buffers@.len() == c,
                forall|k: int| 0 <= k < c ==> #[trigger] buffers@[k]@.len() == samples,
                forall|k: int, i: int|
                    0 <= k < c && 0 <= i < samples ==> call_ensures(
                        S::default,
                        (),
                        #[trigger] buffers@[k]@[i],
                    ),
            decreases channels - c,
        {
            buffers.push(SampleBufferMono::new(samples));
            c = c + 1;
        }
        let r = SampleBuffer { channels, buffers, samples_count: samples };
        Ok(r)
    }
}

} // verus!
