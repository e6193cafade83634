use vstd::prelude::*;

use crate::error::Error;

verus! {

/// A stage of an ADSR envelope; `Idle` is before the attack and after the release.
#[derive(Debug, Copy, Clone, PartialEq, Eq, Structural)]
pub enum State {
    Idle,
    Attack,
    Decay,
    Sustain,
    Release,
}

} // verus!

verus! {

/// The four curves of an ADSR envelope, stage by stage.
pub struct ADSRCurves<C> {
    pub attack: C,
    pub decay: C,
    pub sustain: C,
    pub release: C,
}

/// Collects the curves of an ADSR envelope stage by stage. `C` is the curve type.
/// Each stage after the attack starts where the stage before it ends, so it is made
/// from that stage's curve.
pub struct ADSREnvelopeBuilder<C> {
    attack: Option<C>,
    decay: Option<C>,
    sustain: Option<C>,
    release: Option<C>,
}

impl<C> ADSREnvelopeBuilder<C> {
    pub closed spec fn attack_spec(self) -> Option<C> {
        self.attack
    }

    pub closed spec fn decay_spec(self) -> Option<C> {
        self.decay
    }

    pub closed spec fn sustain_spec(self) -> Option<C> {
        self.sustain
    }

    pub closed spec fn release_spec(self) -> Option<C> {
        self.release
    }

    /// A builder with no stage set.
    pub fn new() -> (r: Self)
        ensures
            r.attack_spec() is None,
            r.decay_spec() is None,
            r.sustain_spec() is None,
            r.release_spec() is None,
    {
        Self { attack: None, decay: None, sustain: None, release: None }
    }

    /// Whether the attack curve is set.
    pub fn has_attack(&self) -> (r: bool)
        ensures
            r == self.attack_spec() is Some,
    {
        self.attack.is_some()
    }

    /// Whether the decay curve is set.
    pub fn has_decay(&self) -> (r: bool)
        ensures
            r == self.decay_spec() is Some,
    {
        self.decay.is_some()
    }

    /// Whether the sustain curve is set.
    pub fn has_sustain(&self) -> (r: bool)
        ensures
            r == self.sustain_spec() is Some,
    {
        self.sustain.is_some()
    }

    /// A builder with all four stages set.
    pub fn from_curves(attack: C, decay: C, sustain: C, release: C) -> (r: Self)
        ensures
            r.attack_spec() == Some(attack),
            r.decay_spec() == Some(decay),
            r.sustain_spec() == Some(sustain),
            r.release_spec() == Some(release),
    {
        Self { attack: Some(attack), decay: Some(decay), sustain: Some(sustain), release: Some(release) }
    }

    /// Sets the attack curve.
    pub fn attack(&mut self, curve: C) -> (r: Result<&mut Self, Error>)
        ensures
            r matches Ok(b) && b.attack_spec() == Some(curve) && b.decay_spec() == old(self).decay_spec()
                && b.sustain_spec() == old(self).sustain_spec() && b.release_spec()
                == old(self).release_spec() && *final(b) == *final(self),
    {
        self.attack = Some(curve);
        Ok(self)
    }

    /// Sets the decay curve, made from the attack curve by `from_attack`.
    pub fn decay<F: FnOnce(&C) -> C>(&mut self, from_attack: F) -> (r: Result<&mut Self, Error>)
        requires
            old(self).attack_spec() is Some,
            call_requires(from_attack, (&old(self).attack_spec().unwrap(),)),
        ensures
            r matches Ok(b) && call_ensures(
                from_attack,
                (&old(self).attack_spec().unwrap(),),
                b.decay_spec().unwrap(),
            ) && b.decay_spec() is Some && b.attack_spec() == old(self).attack_spec()
                && b.sustain_spec() == old(self).sustain_spec() && b.release_spec()
                == old(self).release_spec() && *final(b) == *final(self),
    {
        let curve = from_attack(self.attack.as_ref().unwrap());
        self.decay = Some(curve);
        Ok(self)
    }

    /// Sets the sustain curve, made from the decay curve by `from_decay`.
    pub fn sustain<F: FnOnce(&C) -> C>(&mut self, from_decay: F) -> (r: Result<&mut Self, Error>)
        requires
            old(self).decay_spec() is Some,
            call_requires(from_decay, (&old(self).decay_spec().unwrap(),)),
        ensures
            r matches Ok(b) && call_ensures(
                from_decay,
                (&old(self).decay_spec().unwrap(),),
                b.sustain_spec().unwrap(),
            ) && b.sustain_spec() is Some && b.attack_spec() == old(self).attack_spec()
                && b.decay_spec() == old(self).decay_spec() && b.release_spec()
                == old(self).release_spec() && *final(b) == *final(self),
    {
        let curve = from_decay(self.decay.as_ref().unwrap());
        self.sustain = Some(curve);
        Ok(self)
    }

    /// Sets the release curve, made from the sustain curve by `from_sustain`.
    pub fn release<F: FnOnce(&C) -> C>(&mut self, from_sustain: F) -> (r: Result<&mut Self, Error>)
        requires
            old(self).sustain_spec() is Some,
            call_requires(from_sustain, (&old(self).sustain_spec().unwrap(),)),
        ensures
            r matches Ok(b) && call_ensures(
                from_sustain,
                (&old(self).sustain_spec().unwrap(),),
                b.release_spec().unwrap(),
            ) && b.release_spec() is Some && b.attack_spec() == old(self).attack_spec()
                && b.decay_spec() == old(self).decay_spec() && b.sustain_spec()
                == old(self).sustain_spec() && *final(b) == *final(self),
    {
        let curve = from_sustain(self.sustain.as_ref().unwrap());
        self.release = Some(curve);
        Ok(self)
    }

    /// Takes the four curves out of the builder, in stage order; the first stage
    /// that is missing is named in the error, and the stages before it have been
    /// taken out all the same.
    pub fn build(&mut self) -> (r: Result<ADSRCurves<C>, Error>)
        ensures
            final(self).attack_spec() is None,
            final(self).decay_spec() == if old(self).attack_spec() is Some {
                None
            } else {
                old(self).decay_spec()
            },
            final(self).sustain_spec() == if old(self).attack_spec() is Some
                && old(self).decay_spec() is Some {
                None
            } else {
                old(self).sustain_spec()
            },
            final(self).release_spec() == if old(self).attack_spec() is Some
                && old(self).decay_spec() is Some && old(self).sustain_spec() is Some {
                None
            } else {
                old(self).release_spec()
            },
            old(self).attack_spec() is None ==> (r matches Err(Error::Generic(e)) && e@
                == "Attack not specified"@),
            old(self).attack_spec() is Some && old(self).decay_spec() is None ==> (r matches Err(
                Error::Generic(e),
            ) && e@ == "Decay not specified"@),
            old(self).attack_spec() is Some && old(self).decay_spec() is Some
                && old(self).sustain_spec() is None ==> (r matches Err(Error::Generic(e)) && e@
                == "Sustain not specified"@),
            old(self).attack_spec() is Some && old(self).decay_spec() is Some
                && old(self).sustain_spec() is Some && old(self).release_spec() is None ==> (r matches Err(
                Error::Generic(e),
            ) && e@ == "Release not specified"@),
            old(self).attack_spec() is Some && old(self).decay_spec() is Some
                && old(self).sustain_spec() is Some && old(self).release_spec() is Some ==> (r matches Ok(
                c,
            ) && Some(c.attack) == old(self).attack_spec() && Some(c.decay) == old(self).decay_spec()
                && Some(c.sustain) == old(self).sustain_spec() && Some(c.release)
                == old(self).release_spec()),
    {
        proof {
            reveal_strlit("Attack not specified");
            reveal_strlit("Decay not specified");
            reveal_strlit("Sustain not specified");
            reveal_strlit("Release not specified");
        }
        let attack = match self.attack.take() {
            Some(c) => c,
            None => return Err(Error::from("Attack not specified")),
        };
        let decay = match self.decay.take() {
            Some(c) => c,
            None => return Err(Error::from("Decay not specified")),
        };
        let sustain = match self.sustain.take() {
            Some(c) => c,
            None => return Err(Error::from("Sustain not specified")),
        };
        let release = match self.release.take() {
            Some(c) => c,
            None => return Err(Error::from("Release not specified")),
        };
        Ok(ADSRCurves { attack, decay, sustain, release })
    }
}

impl<C> Default for ADSREnvelopeBuilder<C> {
    fn default() -> (r: Self)
        ensures
            r.attack_spec() is None,
            r.decay_spec() is None,
            r.sustain_spec() is None,
            r.release_spec() is None,
    {
        Self::new()
    }
}

} // verus!
