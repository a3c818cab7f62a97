//! Core value types and the device capability contract.

use vstd::prelude::*;

verus! {

/// The datatype of a single sample time.
pub type Time = u64;

/// The datatype of a single sample.
pub type Sample = i64;

/// The ways a device can declare how many channels it accepts or produces:
/// either a variable number with no enforced bound, or exactly `n`.
#[derive(Clone, Copy, Debug)]
pub enum DeviceIOType {
    Any,
    Exactly(usize),
}

/// The capability contract for a synchronous processing device.
///
/// A device declares its input and output arity and turns one frame of input
/// values into one frame of output values per time step, mutating only its own
/// internal state. The spec functions `input_arity`, `output_arity` and
/// `tick_spec` form the mathematical model of the device that the executable
/// methods are held to.
pub trait Device<I, O>: Sized {
    /// Declared input arity of the device.
    spec fn input_arity(&self) -> DeviceIOType;

    /// Declared output arity of the device.
    spec fn output_arity(&self) -> DeviceIOType;

    /// Model of one processing step: from the current state, the time value
    /// and one input frame, the next state and the produced output frame.
    spec fn tick_spec(&self, t: Time, inputs: Seq<I>) -> (Self, Seq<O>);

    /// Every implementation must show that its model respects its declared
    /// arities: a device declaring `Exactly(n)` outputs produces exactly `n`
    /// values per frame, and processing a frame never changes the declared
    /// arities.
    proof fn tick_spec_wf(&self, t: Time, inputs: Seq<I>)
        ensures
            (self.output_arity() matches DeviceIOType::Exactly(n) ==> self.tick_spec(
                t,
                inputs,
            ).1.len() == n),
            self.tick_spec(t, inputs).0.input_arity() == self.input_arity(),
            self.tick_spec(t, inputs).0.output_arity() == self.output_arity(),
    ;

    /// Return the number of inputs this device will accept.
    fn num_inputs(&self) -> (r: DeviceIOType)
        ensures
            r == self.input_arity(),
    ;

    /// Return the number of outputs this device generates.
    fn num_outputs(&self) -> (r: DeviceIOType)
        ensures
            r == self.output_arity(),
    ;

    /// Process a single frame worth of data. This function should be called
    /// once per time step, starting at `t = 0`; it must leave in `outputs`
    /// exactly the frame its model produces.
    fn tick(&mut self, t: Time, inputs: &Vec<I>, outputs: &mut Vec<O>)
        ensures
            *final(self) == old(self).tick_spec(t, inputs@).0,
            final(outputs)@ == old(self).tick_spec(t, inputs@).1,
    ;
}

} // verus!
