//! A few small devices. They witness that the device capability contract can
//! be implemented and proved, and give callers concrete devices to wire up.

use vstd::prelude::*;

use crate::types::{Device, DeviceIOType, Sample, Time};

verus! {

/// The wrapping sum of a frame of samples.
pub open spec fn wrap_sum(vals: Seq<Sample>) -> Sample
    decreases vals.len(),
{
    if vals.len() == 0 {
        0 as Sample
    } else {
        wrap_sum(vals.drop_last()).wrapping_add(vals.last())
    }
}

/// No inputs and one sample output: `base + t`, wrapping on overflow.
pub struct TimeSource {
    pub base: Sample,
}

impl Device<(), Sample> for TimeSource {
    open spec fn input_arity(&self) -> DeviceIOType {
        DeviceIOType::Exactly(0)
    }

    open spec fn output_arity(&self) -> DeviceIOType {
        DeviceIOType::Exactly(1)
    }

    open spec fn tick_spec(&self, t: Time, inputs: Seq<()>) -> (Self, Seq<Sample>) {
        (*self, seq![self.base.wrapping_add_unsigned(t)])
    }

    proof fn tick_spec_wf(&self, t: Time, inputs: Seq<()>) {
    }

    fn num_inputs(&self) -> (r: DeviceIOType) {
        DeviceIOType::Exactly(0)
    }

    fn num_outputs(&self) -> (r: DeviceIOType) {
        DeviceIOType::Exactly(1)
    }

    fn tick(&mut self, t: Time, _inputs: &Vec<()>, outputs: &mut Vec<Sample>) {
        outputs.clear();
        outputs.push(self.base.wrapping_add_unsigned(t));
        proof {
            assert(outputs@ =~= seq![self.base.wrapping_add_unsigned(t)]);
        }
    }
}

/// One sample input and one sample output: the identity transform; an
/// unwired input reads as the default sample.
pub struct Identity;

impl Device<Sample, Sample> for Identity {
    open spec fn input_arity(&self) -> DeviceIOType {
        DeviceIOType::Exactly(1)
    }

    open spec fn output_arity(&self) -> DeviceIOType {
        DeviceIOType::Exactly(1)
    }

    open spec fn tick_spec(&self, t: Time, inputs: Seq<Sample>) -> (Self, Seq<Sample>) {
        (
            *self,
            seq![
                if inputs.len() > 0 {
                    inputs[0]
                } else {
                    0 as Sample
                }
            ],
        )
    }

    proof fn tick_spec_wf(&self, t: Time, inputs: Seq<Sample>) {
    }

    fn num_inputs(&self) -> (r: DeviceIOType) {
        DeviceIOType::Exactly(1)
    }

    fn num_outputs(&self) -> (r: DeviceIOType) {
        DeviceIOType::Exactly(1)
    }

    fn tick(&mut self, t: Time, inputs: &Vec<Sample>, outputs: &mut Vec<Sample>) {
        let v = if inputs.len() > 0 {
            inputs[0]
        } else {
            0
        };
        outputs.clear();
        outputs.push(v);
        proof {
            assert(outputs@ =~= self.tick_spec(t, inputs@).1);
        }
    }
}

/// Exactly two sample inputs and one sample output: their wrapping sum.
pub struct Mixer;

impl Device<Sample, Sample> for Mixer {
    open spec fn input_arity(&self) -> DeviceIOType {
        DeviceIOType::Exactly(2)
    }

    open spec fn output_arity(&self) -> DeviceIOType {
        DeviceIOType::Exactly(1)
    }

    open spec fn tick_spec(&self, t: Time, inputs: Seq<Sample>) -> (Self, Seq<Sample>) {
        (*self, seq![wrap_sum(inputs)])
    }

    proof fn tick_spec_wf(&self, t: Time, inputs: Seq<Sample>) {
    }

    fn num_inputs(&self) -> (r: DeviceIOType) {
        DeviceIOType::Exactly(2)
    }

    fn num_outputs(&self) -> (r: DeviceIOType) {
        DeviceIOType::Exactly(1)
    }

    fn tick(&mut self, _t: Time, inputs: &Vec<Sample>, outputs: &mut Vec<Sample>) {
        let mut acc: Sample = 0;
        let mut k: usize = 0;
        while k < inputs.len()
            invariant
                k <= inputs@.len(),
                acc == wrap_sum(inputs@.take(k as int)),
            decreases inputs@.len() - k,
        {
            acc = acc.wrapping_add(inputs[k]);
            k += 1;
            proof {
                assert(inputs@.take(k as int).drop_last() =~= inputs@.take(k - 1));
                assert(inputs@.take(k as int).last() == inputs@[k - 1]);
            }
        }
        proof {
            assert(inputs@.take(inputs@.len() as int) =~= inputs@);
        }
        outputs.clear();
        outputs.push(acc);
        proof {
            assert(outputs@ =~= seq![wrap_sum(inputs@)]);
        }
    }
}

/// Any number of sample inputs and one unit output: discards its frame.
pub struct Sink;

impl Device<Sample, ()> for Sink {
    open spec fn input_arity(&self) -> DeviceIOType {
        DeviceIOType::Any
    }

    open spec fn output_arity(&self) -> DeviceIOType {
        DeviceIOType::Exactly(1)
    }

    open spec fn tick_spec(&self, t: Time, inputs: Seq<Sample>) -> (Self, Seq<()>) {
        (*self, seq![()])
    }

    proof fn tick_spec_wf(&self, t: Time, inputs: Seq<Sample>) {
    }

    fn num_inputs(&self) -> (r: DeviceIOType) {
        DeviceIOType::Any
    }

    fn num_outputs(&self) -> (r: DeviceIOType) {
        DeviceIOType::Exactly(1)
    }

    fn tick(&mut self, _t: Time, _inputs: &Vec<Sample>, outputs: &mut Vec<()>) {
        outputs.clear();
        outputs.push(());
        proof {
            assert(outputs@ =~= seq![()]);
        }
    }
}

/// A misconfigured source declaring an unbounded number of outputs: the
/// graph refuses to register it.
pub struct AnyOutSource;

impl Device<(), Sample> for AnyOutSource {
    open spec fn input_arity(&self) -> DeviceIOType {
        DeviceIOType::Exactly(0)
    }

    open spec fn output_arity(&self) -> DeviceIOType {
        DeviceIOType::Any
    }

    open spec fn tick_spec(&self, t: Time, inputs: Seq<()>) -> (Self, Seq<Sample>) {
        (*self, Seq::empty())
    }

    proof fn tick_spec_wf(&self, t: Time, inputs: Seq<()>) {
    }

    fn num_inputs(&self) -> (r: DeviceIOType) {
        DeviceIOType::Exactly(0)
    }

    fn num_outputs(&self) -> (r: DeviceIOType) {
        DeviceIOType::Any
    }

    fn tick(&mut self, _t: Time, _inputs: &Vec<()>, outputs: &mut Vec<Sample>) {
        outputs.clear();
        proof {
            assert(outputs@ =~= Seq::<Sample>::empty());
        }
    }
}

} // verus!
