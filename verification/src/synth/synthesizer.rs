use vstd::prelude::*;

use crate::error::Error;
use crate::utils::sample_buffer::{SampleBuffer, SampleBufferBuilder};

verus! {

/// Oscillators of type `O` mixed into a stereo buffer of samples of type `S`, then
/// passed through effects of type `E`.
pub struct Synthesizer<O, E, S> {
    buffer: SampleBuffer<S>,
    oscillators: Vec<O>,
    effects: Vec<E>,
    sample_rate: u32,
}

/// Collects the parts of a synthesizer, then builds it.
pub struct SynthesizerBuilder<O, E, S> {
    buffer: Option<SampleBuffer<S>>,
    oscillators: Option<Vec<O>>,
    effects: Option<Vec<E>>,
    sample_rate: Option<u32>,
}

impl<O, E, S> Synthesizer<O, E, S> {
    pub closed spec fn buffer_spec(self) -> SampleBuffer<S> {
        self.buffer
    }

    pub closed spec fn oscillators_spec(self) -> Seq<O> {
        self.oscillators@
    }

    pub closed spec fn effects_spec(self) -> Seq<E> {
        self.effects@
    }

    pub closed spec fn sample_rate_spec(self) -> u32 {
        self.sample_rate
    }

    /// The output buffer.
    pub fn get_buffer(&self) -> (r: &SampleBuffer<S>)
        ensures
            *r == self.buffer_spec(),
    {
        &self.buffer
    }

    /// The output buffer, for writing.
    pub fn get_buffer_mut(&mut self) -> (r: &mut SampleBuffer<S>)
        ensures
            *r == old(self).buffer_spec(),
            final(self).buffer_spec() == *final(r),
            final(self).oscillators_spec() == old(self).oscillators_spec(),
            final(self).effects_spec() == old(self).effects_spec(),
            final(self).sample_rate_spec() == old(self).sample_rate_spec(),
    {
        &mut self.buffer
    }

    /// The oscillators, in the order they were added.
    pub fn oscillators(&self) -> (r: &Vec<O>)
        ensures
            r@ == self.oscillators_spec(),
    {
        &self.oscillators
    }

    /// The effects, in the order they are applied.
    pub fn effects(&self) -> (r: &Vec<E>)
        ensures
            r@ == self.effects_spec(),
    {
        &self.effects
    }

    /// The sample rate in Hz.
    pub fn sample_rate(&self) -> (r: u32)
        ensures
            r == self.sample_rate_spec(),
    {
        self.sample_rate
    }
}

impl<O, E, S> SynthesizerBuilder<O, E, S> {
    pub closed spec fn buffer_spec(self) -> Option<SampleBuffer<S>> {
        self.buffer
    }

    pub closed spec fn oscillators_spec(self) -> Option<Seq<O>> {
        match self.oscillators {
            Some(v) => Some(v@),
            None => None,
        }
    }

    pub closed spec fn effects_spec(self) -> Option<Seq<E>> {
        match self.effects {
            Some(v) => Some(v@),
            None => None,
        }
    }

    pub closed spec fn sample_rate_spec(self) -> Option<u32> {
        self.sample_rate
    }

    /// A builder with nothing set.
    pub fn new() -> (r: Self)
        ensures
            r.buffer_spec() is None,
            r.oscillators_spec() is None,
            r.effects_spec() is None,
            r.sample_rate_spec() is None,
    {
        Self { buffer: None, oscillators: None, effects: None, sample_rate: None }
    }

    /// Appends an oscillator.
    pub fn add_osc(&mut self, osc: O) -> (r: &mut Self)
        ensures
            r.oscillators_spec() == Some(
                match old(self).oscillators_spec() {
                    Some(v) => v,
                    None => Seq::empty(),
                }.push(osc),
            ),
            r.buffer_spec() == old(self).buffer_spec(),
            r.effects_spec() == old(self).effects_spec(),
            r.sample_rate_spec() == old(self).sample_rate_spec(),
            *final(self) == *final(r),
    {
        match self.oscillators.as_mut() {
            Some(vec) => {
                vec.push(osc);
            },
            None => {
                self.oscillators = Some(vec![osc]);
            },
        }
        self
    }

    /// Declares that the synthesizer has no oscillators (so far).
    pub fn empty_osc(&mut self) -> (r: &mut Self)
        ensures
            r.oscillators_spec() == Some(Seq::<O>::empty()),
            r.buffer_spec() == old(self).buffer_spec(),
            r.effects_spec() == old(self).effects_spec(),
            r.sample_rate_spec() == old(self).sample_rate_spec(),
            *final(self) == *final(r),
    {
        self.oscillators = Some(Vec::new());
        self
    }

    /// Appends an effect.
    pub fn add_effect(&mut self, effect: E) -> (r: &mut Self)
        ensures
            r.effects_spec() == Some(
                match old(self).effects_spec() {
                    Some(v) => v,
                    None => Seq::empty(),
                }.push(effect),
            ),
            r.buffer_spec() == old(self).buffer_spec(),
            r.oscillators_spec() == old(self).oscillators_spec(),
            r.sample_rate_spec() == old(self).sample_rate_spec(),
            *final(self) == *final(r),
    {
        match self.effects.as_mut() {
            Some(effects) => {
                effects.push(effect);
            },
            None => {
                self.effects = Some(vec![effect]);
            },
        }
        self
    }

    /// Sets the sample rate in Hz.
    pub fn set_sample_rate(&mut self, sample_rate: u32) -> (r: &mut Self)
        ensures
            r.sample_rate_spec() == Some(sample_rate),
            r.buffer_spec() == old(self).buffer_spec(),
            r.oscillators_spec() == old(self).oscillators_spec(),
            r.effects_spec() == old(self).effects_spec(),
            *final(self) == *final(r),
    {
        self.sample_rate = Some(sample_rate);
        self
    }

    /// The synthesizer. The buffer and the oscillators are taken out of the builder
    /// (as far as building got), the effects too (none when unset); the sample rate
    /// stays.
    pub fn build(&mut self) -> (r: Result<Synthesizer<O, E, S>, Error>)
        ensures
            final(self).buffer_spec() is None,
            final(self).sample_rate_spec() == old(self).sample_rate_spec(),
            final(self).oscillators_spec() == if old(self).buffer_spec() is Some {
                None
            } else {
                old(self).oscillators_spec()
            },
            final(self).effects_spec() == if old(self).buffer_spec() is Some
                && old(self).oscillators_spec() is Some && old(self).sample_rate_spec() is Some {
                None
            } else {
                old(self).effects_spec()
            },
            old(self).buffer_spec() is None ==> r == Err::<Synthesizer<O, E, S>, Error>(
                Error::Specify("buffer size"),
            ),
            old(self).buffer_spec() is Some && old(self).oscillators_spec() is None ==> r == Err::<
                Synthesizer<O, E, S>,
                Error,
            >(Error::Specify("oscillators")),
            old(self).buffer_spec() is Some && old(self).oscillators_spec() is Some
                && old(self).sample_rate_spec() is None ==> r == Err::<Synthesizer<O, E, S>, Error>(
                Error::Specify("sample_rate"),
            ),
            old(self).buffer_spec() is Some && old(self).oscillators_spec() is Some
                && old(self).sample_rate_spec() is Some ==> (r matches Ok(s) && Some(s.buffer_spec())
                == old(self).buffer_spec() && Some(s.oscillators_spec())
                == old(self).oscillators_spec() && Some(s.sample_rate_spec())
                == old(self).sample_rate_spec() && s.effects_spec() == match old(
                self,
            ).effects_spec() {
                Some(v) => v,
                None => Seq::empty(),
            }),
    {
        let buffer = match self.buffer.take() {
            Some(b) => b,
            None => return Err(Error::Specify("buffer size")),
        };
        let oscillators = match self.oscillators.take() {
            Some(o) => o,
            None => return Err(Error::Specify("oscillators")),
        };
        let sample_rate = match self.sample_rate {
            Some(rate) => rate,
            None => return Err(Error::Specify("sample_rate")),
        };
        let effects = match self.effects.take() {
            Some(e) => e,
            None => Vec::new(),
        };
        Ok(Synthesizer { buffer, oscillators, effects, sample_rate })
    }
}

impl<O, E, S: Copy + Default> SynthesizerBuilder<O, E, S> {
    /// Sets a stereo output buffer of `buffer_size` samples per channel, all silent.
    pub fn set_buffer(&mut self, buffer_size: usize) -> (r: Result<&mut Self, Error>)
        ensures
            r matches Ok(b) && {
                &&& b.buffer_spec() matches Some(buf) && buf.channels_spec() == 2 && buf.len_spec()
                    == buffer_size && buf.data().len() == 2 && forall|c: int|
                    0 <= c < 2 ==> #[trigger] buf.data()[c].len() == buffer_size && forall|i: int|
                        0 <= i < buffer_size ==> call_ensures(S::default, (), #[trigger] buf.data()[c][i])
                &&& b.oscillators_spec() == old(self).oscillators_spec()
                &&& b.effects_spec() == old(self).effects_spec()
                &&& b.sample_rate_spec() == old(self).sample_rate_spec()
                &&& *final(b) == *final(self)
            },
    {
        let mut builder = SampleBufferBuilder::new();
        builder.set_channels(2).set_samples(buffer_size);
        let buffer = builder.build()?;
        self.buffer = Some(buffer);
        Ok(self)
    }
}

} // verus!
