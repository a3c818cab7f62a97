//! An acyclic dataflow graph for wiring synchronous processing devices
//! together and advancing them one discrete time step at a time.
//!
//! Devices are registered into a [`DeviceGraph`], wired to each other through
//! per-value-type buses, and then driven by [`DeviceGraph::tick`], which
//! evaluates every node in registration order. Registering producers before
//! consumers is a caller obligation: a node wired to a later-registered node
//! reads that node's previous-tick value.

use core::marker::PhantomData;

use vstd::prelude::*;

pub mod devices;
pub mod laws;
pub mod model;
pub mod types;

use crate::model::{outputs_disjoint, wf_node, wf_nodes, DeviceState};
use crate::types::{Device, DeviceIOType, Sample, Time};

verus! {

/// Graph-owned wrapper around one device instance: the device itself, the bus
/// slots feeding its inputs, the bus slots it owns for its outputs, and the
/// per-tick scratch buffers.
pub struct Node<D, I, O> {
    /// The wrapped device instance.
    pub device: D,
    /// Bus slot indices feeding this node's inputs, one per wired input
    /// channel, in the order edges were added.
    pub inputs: Vec<usize>,
    /// Bus slot indices this node owns for its outputs, fixed at registration.
    pub outputs: Vec<usize>,
    /// Scratch buffer for one input frame.
    pub input_buffer: Vec<I>,
    /// Scratch buffer for one output frame.
    pub output_buffer: Vec<O>,
    /// The device's declared output channel count.
    pub num_outputs: usize,
}

impl<D: Device<I, O>, I, O> Node<D, I, O> {
    /// Wrap a device into an unwired node. A device declaring `Any` outputs
    /// cannot be wrapped: the graph cannot allocate an unbounded number of
    /// output slots, so this is a fatal configuration error.
    pub fn from_device(d: D) -> (r: Result<Node<D, I, O>, &'static str>)
        ensures
            (r matches Ok(_)) <==> (d.output_arity() matches DeviceIOType::Exactly(_)),
            r matches Err(e) ==> e@ == "DeviceGraph does not support Any outputs"@,
            r matches Ok(n) ==> n.device == d,
            r matches Ok(n) ==> n.inputs@ == Seq::<usize>::empty(),
            r matches Ok(n) ==> n.outputs@ == Seq::<usize>::empty(),
            r matches Ok(n) ==> DeviceIOType::Exactly(n.num_outputs) == d.output_arity(),
    {
        let num_outputs = match d.num_outputs() {
            DeviceIOType::Any => {
                return Err("DeviceGraph does not support Any outputs");
            },
            DeviceIOType::Exactly(i) => i,
        };
        Ok(
            Node {
                device: d,
                inputs: Vec::new(),
                outputs: Vec::new(),
                input_buffer: Vec::new(),
                output_buffer: Vec::new(),
                num_outputs,
            },
        )
    }
}

/// One node of the graph, tagged with its (input type, output type) pair.
///
/// The graph supports a closed set of channel value type pairs; one variant
/// stands for each pair, so that one ordered collection can hold nodes whose
/// devices process different value types.
pub enum NodeWrapper<US, SS, SU> {
    UnitToSample(Node<US, (), Sample>),
    SampleToSample(Node<SS, Sample, Sample>),
    SampleToUnit(Node<SU, Sample, ()>),
}

impl<US, SS, SU> NodeWrapper<US, SS, SU> {
    /// Resolve this node's owned output slot for the requested channel
    /// number; fails if the channel number is not below the node's declared
    /// output arity.
    fn get_output_channel(&self, ch: usize) -> (r: Result<usize, &'static str>)
        requires
            self.outputs_view().len() == self.out_count(),
        ensures
            (r matches Ok(_)) <==> ch < self.out_count(),
            (r matches Ok(s) ==> s == self.outputs_view()[ch as int]),
            r matches Err(e) ==> e@ == "not enough channels"@,
    {
        match self {
            NodeWrapper::UnitToSample(n) => {
                if ch < n.num_outputs {
                    Ok(n.outputs[ch])
                } else {
                    Err("not enough channels")
                }
            },
            NodeWrapper::SampleToSample(n) => {
                if ch < n.num_outputs {
                    Ok(n.outputs[ch])
                } else {
                    Err("not enough channels")
                }
            },
            NodeWrapper::SampleToUnit(n) => {
                if ch < n.num_outputs {
                    Ok(n.outputs[ch])
                } else {
                    Err("not enough channels")
                }
            },
        }
    }
}

impl<US: Device<(), Sample>, SS: Device<Sample, Sample>, SU: Device<Sample, ()>> NodeWrapper<
    US,
    SS,
    SU,
> {
    /// Append one wired input slot to this node, if its declared input arity
    /// leaves room for it; the requested channel number plays no role in the
    /// bound, since inputs are accepted in the order edges are added.
    fn set_input_channel(self, _ch: usize, input: usize) -> (r: (Self, Result<(), &'static str>))
        ensures
            (r.1 matches Ok(_)) <==> self.accepts_edge(),
            r.1 matches Err(e) ==> e@ == "not enough channels"@,
            r.1 matches Ok(_) ==> r.0.inputs_view() == self.inputs_view().push(input),
            r.1 matches Err(_) ==> r.0 == self,
            r.0.outputs_view() == self.outputs_view(),
            r.0.out_count() == self.out_count(),
            r.0.dev_state() == self.dev_state(),
            r.0.input_arity() == self.input_arity(),
            r.0.output_arity() == self.output_arity(),
            r.0.writes_audio() == self.writes_audio(),
            r.0.reads_audio() == self.reads_audio(),
    {
        match self {
            NodeWrapper::UnitToSample(mut n) => {
                match n.device.num_inputs() {
                    DeviceIOType::Any => {
                        n.inputs.push(input);
                        (NodeWrapper::UnitToSample(n), Ok(()))
                    },
                    DeviceIOType::Exactly(m) => {
                        if n.inputs.len() < m {
                            n.inputs.push(input);
                            (NodeWrapper::UnitToSample(n), Ok(()))
                        } else {
                            (NodeWrapper::UnitToSample(n), Err("not enough channels"))
                        }
                    },
                }
            },
            NodeWrapper::SampleToSample(mut n) => {
                match n.device.num_inputs() {
                    DeviceIOType::Any => {
                        n.inputs.push(input);
                        (NodeWrapper::SampleToSample(n), Ok(()))
                    },
                    DeviceIOType::Exactly(m) => {
                        if n.inputs.len() < m {
                            n.inputs.push(input);
                            (NodeWrapper::SampleToSample(n), Ok(()))
                        } else {
                            (NodeWrapper::SampleToSample(n), Err("not enough channels"))
                        }
                    },
                }
            },
            NodeWrapper::SampleToUnit(mut n) => {
                match n.device.num_inputs() {
                    DeviceIOType::Any => {
                        n.inputs.push(input);
                        (NodeWrapper::SampleToUnit(n), Ok(()))
                    },
                    DeviceIOType::Exactly(m) => {
                        if n.inputs.len() < m {
                            n.inputs.push(input);
                            (NodeWrapper::SampleToUnit(n), Ok(()))
                        } else {
                            (NodeWrapper::SampleToUnit(n), Err("not enough channels"))
                        }
                    },
                }
            },
        }
    }
}

/// The per-value-type bus set: flat storage holding the most recently
/// produced value of every output channel in the graph, one store per
/// distinct channel value type.
pub struct GraphBus {
    /// Storage for every sample-typed output channel.
    pub audio_bus: Vec<Sample>,
    /// Storage for every unit-typed output channel.
    pub unit_bus: Vec<()>,
}

/// An opaque, statically typed reference to a registered node, used to
/// express type-correct edges: the node's index plus phantom markers for the
/// node's input and output value types.
#[derive(Debug)]
pub struct DeviceNode<I, O>(pub usize, pub PhantomData<I>, pub PhantomData<O>);

impl<I, O> Clone for DeviceNode<I, O> {
    fn clone(&self) -> (r: Self)
        ensures
            r == *self,
    {
        DeviceNode(self.0, PhantomData, PhantomData)
    }
}

impl<I, O> Copy for DeviceNode<I, O> {}

/// Tracks the state and connections of many devices as an acyclic graph.
///
/// The graph owns all registered nodes in insertion order, the bus set, and
/// the global discrete time counter. `US`, `SS` and `SU` are the device types
/// registered for the unit-to-sample, sample-to-sample and sample-to-unit
/// value type pairs.
pub struct DeviceGraph<US, SS, SU> {
    /// The global discrete time counter, incremented once per tick.
    pub t: Time,
    /// All registered nodes, in insertion order.
    pub devices: Vec<NodeWrapper<US, SS, SU>>,
    /// The per-value-type buses.
    pub bus: GraphBus,
}

impl<US: Device<(), Sample>, SS: Device<Sample, Sample>, SU: Device<Sample, ()>> DeviceGraph<
    US,
    SS,
    SU,
> {
    /// The graph's internal invariant: every node's wiring is well formed
    /// against the current bus lengths, and every bus slot is owned by
    /// exactly one output channel.
    pub open spec fn wf(self) -> bool {
        wf_nodes(self.devices@, self.bus.audio_bus@.len(), self.bus.unit_bus@.len())
    }

    /// Create an empty DeviceGraph.
    pub fn new() -> (g: DeviceGraph<US, SS, SU>)
        ensures
            g.wf(),
            g.t == 0,
            g.devices@ == Seq::<NodeWrapper<US, SS, SU>>::empty(),
            g.bus.audio_bus@ == Seq::<Sample>::empty(),
            g.bus.unit_bus@ == Seq::<()>::empty(),
    {
        DeviceGraph { t: 0, devices: Vec::new(), bus: GraphBus { audio_bus: Vec::new(), unit_bus: Vec::new() } }
    }

    /// Link two devices: feed output channel `from_ch` of the node behind
    /// `from` into the node behind `to`.
    ///
    /// Succeeds exactly when `from_ch` lies below the source's declared
    /// output arity and the destination still accepts an input; on failure
    /// the graph is left unchanged. The destination accepts inputs in the
    /// order edges are added, so `to_ch` plays no part in the bound. The
    /// handles' phantom types make an edge type-correct at the call site:
    /// the source's output value type is the destination's input value type.
    pub fn add_edge<I, E, O>(
        &mut self,
        from: DeviceNode<I, E>,
        from_ch: usize,
        to: DeviceNode<E, O>,
        to_ch: usize,
    ) -> (r: Result<(), &'static str>)
        requires
            old(self).wf(),
            from.0 < old(self).devices@.len(),
            to.0 < old(self).devices@.len(),
            old(self).devices@[from.0 as int].writes_audio() == old(self).devices@[to.0 as int].reads_audio(),
        ensures
            final(self).wf(),
            final(self).t == old(self).t,
            final(self).bus.audio_bus@ == old(self).bus.audio_bus@,
            final(self).bus.unit_bus@ == old(self).bus.unit_bus@,
            final(self).devices@.len() == old(self).devices@.len(),
            (r matches Ok(_)) <==> (from_ch < old(self).devices@[from.0 as int].out_count()
                && old(self).devices@[to.0 as int].accepts_edge()),
            r matches Err(e) ==> e@ == "not enough channels"@,
            r matches Err(_) ==> final(self).devices@ == old(self).devices@,
            forall|x: int|
                0 <= x < old(self).devices@.len() && x != to.0 ==> final(self).devices@[x] == old(
                    self,
                ).devices@[x],
            r matches Ok(_) ==> final(self).devices@[to.0 as int].inputs_view() == old(
                self,
            ).devices@[to.0 as int].inputs_view().push(
                old(self).devices@[from.0 as int].outputs_view()[from_ch as int],
            ),
            final(self).devices@[to.0 as int].outputs_view() == old(self).devices@[to.0 as int].outputs_view(),
            final(self).devices@[to.0 as int].out_count() == old(self).devices@[to.0 as int].out_count(),
            final(self).devices@[to.0 as int].dev_state() == old(self).devices@[to.0 as int].dev_state(),
    {
        let i = from.0;
        let j = to.0;
        proof {
            assert(wf_node(
                self.devices@[i as int],
                self.bus.audio_bus@.len(),
                self.bus.unit_bus@.len(),
            ));
            assert(wf_node(
                self.devices@[j as int],
                self.bus.audio_bus@.len(),
                self.bus.unit_bus@.len(),
            ));
        }
        let ch = match self.devices[i].get_output_channel(from_ch) {
            Ok(c) => c,
            Err(e) => {
                return Err(e);
            },
        };
        let ghost pre = self.devices@;
        let w = self.devices.remove(j);
        let (w2, r) = w.set_input_channel(to_ch, ch);
        self.devices.insert(j, w2);
        proof {
            assert(self.devices@ =~= pre.update(j as int, w2));
            if r is Err {
                assert(self.devices@ =~= pre);
            }
            let alen = self.bus.audio_bus@.len();
            let ulen = self.bus.unit_bus@.len();
            assert forall|x: int| 0 <= x < self.devices@.len() implies wf_node(
                #[trigger] self.devices@[x],
                alen,
                ulen,
            ) by {
                assert(wf_node(pre[x], alen, ulen));
                if x == j as int {
                    assert(wf_node(w2, alen, ulen));
                }
            }
            crate::model::lemma_outputs_disjoint_same(pre, self.devices@);
        }
        r
    }

    /// Read the value currently stored in the bus slot a node owns for its
    /// sample-typed output channel `ch`: the value the node produced on the
    /// most recent tick, or the default value if the graph has not ticked
    /// since the node was registered. Returns `None` when the handle does not
    /// name a registered node, the node's outputs are not sample-typed, or
    /// `ch` is not below the node's declared output arity.
    pub fn sample_output<I, O>(&self, node: &DeviceNode<I, O>, ch: usize) -> (r: Option<Sample>)
        requires
            self.wf(),
        ensures
            (r matches Some(_)) <==> (node.0 < self.devices@.len()
                && self.devices@[node.0 as int].writes_audio() && ch < self.devices@[node.0 as int].out_count()),
            r matches Some(v) ==> v == self.bus.audio_bus@[self.devices@[node.0 as int].outputs_view()[ch as int] as int],
    {
        if node.0 >= self.devices.len() {
            return None;
        }
        proof {
            assert(wf_node(
                self.devices@[node.0 as int],
                self.bus.audio_bus@.len(),
                self.bus.unit_bus@.len(),
            ));
        }
        let w: &NodeWrapper<US, SS, SU> = &self.devices[node.0];
        match w {
            NodeWrapper::UnitToSample(n) => {
                if ch < n.num_outputs {
                    Some(self.bus.audio_bus[n.outputs[ch]])
                } else {
                    None
                }
            },
            NodeWrapper::SampleToSample(n) => {
                if ch < n.num_outputs {
                    Some(self.bus.audio_bus[n.outputs[ch]])
                } else {
                    None
                }
            },
            NodeWrapper::SampleToUnit(_) => None,
        }
    }

    /// Process a single time step.
    ///
    /// Every node, in insertion order, gathers the current bus values at its
    /// wired input slots, runs its device on them at the current time, and
    /// stores the produced frame into its owned output slots; a node
    /// therefore sees the value just produced by any node registered before
    /// it, and the previous tick's value of any node registered after it.
    /// Afterwards the time counter has advanced by one.
    pub fn tick(&mut self)
        requires
            old(self).wf(),
            old(self).t < Time::MAX,
        ensures
            final(self).wf(),
            final(self).t == old(self).t + 1,
            final(self).devices@.len() == old(self).devices@.len(),
            ({
                let r = crate::model::run_nodes(
                    old(self).devices@,
                    old(self).bus.audio_bus@,
                    old(self).bus.unit_bus@,
                    old(self).t,
                    old(self).devices@.len() as int,
                );
                &&& final(self).bus.audio_bus@ == r.1
                &&& final(self).bus.unit_bus@ == r.2
                &&& forall|j: int|
                    0 <= j < old(self).devices@.len() ==> (#[trigger] final(self).devices@[j]).dev_state() == r.0[j]
            }),
            forall|j: int|
                0 <= j < old(self).devices@.len() ==> (#[trigger] final(self).devices@[j]).inputs_view() == old(self).devices@[j].inputs_view(),
            forall|j: int|
                0 <= j < old(self).devices@.len() ==> (#[trigger] final(self).devices@[j]).outputs_view() == old(self).devices@[j].outputs_view(),
            forall|j: int|
                0 <= j < old(self).devices@.len() ==> (#[trigger] final(self).devices@[j]).out_count() == old(self).devices@[j].out_count(),
    {
        let ghost nodes0 = self.devices@;
        let ghost audio0 = self.bus.audio_bus@;
        let ghost unit0 = self.bus.unit_bus@;
        let ghost t0 = self.t;
        let t = self.t;
        let mut done: Vec<NodeWrapper<US, SS, SU>> = Vec::new();
        while self.devices.len() > 0
            invariant
                t == t0,
                self.t == t0,
                wf_nodes(nodes0, audio0.len(), unit0.len()),
                done@.len() + self.devices@.len() == nodes0.len(),
                self.devices@ == nodes0.skip(done@.len() as int),
                self.bus.audio_bus@.len() == audio0.len(),
                self.bus.unit_bus@.len() == unit0.len(),
                ({
                    let r = crate::model::run_nodes(
                        nodes0,
                        audio0,
                        unit0,
                        t0,
                        done@.len() as int,
                    );
                    &&& self.bus.audio_bus@ == r.1
                    &&& self.bus.unit_bus@ == r.2
                    &&& forall|j: int|
                        0 <= j < done@.len() ==> {
                            &&& (#[trigger] done@[j]).dev_state() == r.0[j]
                            &&& done@[j].inputs_view() == nodes0[j].inputs_view()
                            &&& done@[j].outputs_view() == nodes0[j].outputs_view()
                            &&& done@[j].out_count() == nodes0[j].out_count()
                            &&& done@[j].writes_audio() == nodes0[j].writes_audio()
                            &&& done@[j].reads_audio() == nodes0[j].reads_audio()
                            &&& done@[j].input_arity() == nodes0[j].input_arity()
                            &&& done@[j].output_arity() == nodes0[j].output_arity()
                        }
                }),
            decreases self.devices@.len(),
        {
            let ghost m = done@.len() as int;
            proof {
                assert(self.devices@[0] == nodes0[m]);
                assert(wf_node(nodes0[m], audio0.len(), unit0.len()));
            }
            let w = self.devices.remove(0);
            let ghost r_prev = crate::model::run_nodes(nodes0, audio0, unit0, t0, m);
            let w2 = match w {
                NodeWrapper::UnitToSample(mut n) => {
                    proof {
                        assert(nodes0[m] == NodeWrapper::<US, SS, SU>::UnitToSample(n));
                        assert forall|k: int| 0 <= k < n.inputs@.len() implies (#[trigger] n.inputs@[k])
                            < self.bus.unit_bus@.len() by {
                            assert(nodes0[m].inputs_view()[k] < unit0.len());
                        }
                    }
                    gather_into(&mut n.input_buffer, &self.bus.unit_bus, &n.inputs);
                    let ghost dev0 = n.device;
                    n.device.tick(t, &n.input_buffer, &mut n.output_buffer);
                    proof {
                        dev0.tick_spec_wf(t0, n.input_buffer@);
                        assert(nodes0[m].output_arity() == DeviceIOType::Exactly(
                            nodes0[m].out_count(),
                        ));
                        assert(n.output_buffer@.len() == n.outputs@.len());
                        assert forall|k: int| 0 <= k < n.outputs@.len() implies (
                        #[trigger] n.outputs@[k]) < self.bus.audio_bus@.len() by {
                            assert(nodes0[m].outputs_view()[k] < audio0.len());
                        }
                    }
                    write_outputs(&mut self.bus.audio_bus, &n.outputs, &n.output_buffer);
                    NodeWrapper::UnitToSample(n)
                },
                NodeWrapper::SampleToSample(mut n) => {
                    proof {
                        assert(nodes0[m] == NodeWrapper::<US, SS, SU>::SampleToSample(n));
                        assert forall|k: int| 0 <= k < n.inputs@.len() implies (#[trigger] n.inputs@[k])
                            < self.bus.audio_bus@.len() by {
                            assert(nodes0[m].inputs_view()[k] < audio0.len());
                        }
                    }
                    gather_into(&mut n.input_buffer, &self.bus.audio_bus, &n.inputs);
                    let ghost dev0 = n.device;
                    n.device.tick(t, &n.input_buffer, &mut n.output_buffer);
                    proof {
                        dev0.tick_spec_wf(t0, n.input_buffer@);
                        assert(nodes0[m].output_arity() == DeviceIOType::Exactly(
                            nodes0[m].out_count(),
                        ));
                        assert(n.output_buffer@.len() == n.outputs@.len());
                        assert forall|k: int| 0 <= k < n.outputs@.len() implies (
                        #[trigger] n.outputs@[k]) < self.bus.audio_bus@.len() by {
                            assert(nodes0[m].outputs_view()[k] < audio0.len());
                        }
                    }
                    write_outputs(&mut self.bus.audio_bus, &n.outputs, &n.output_buffer);
                    NodeWrapper::SampleToSample(n)
                },
                NodeWrapper::SampleToUnit(mut n) => {
                    proof {
                        assert(nodes0[m] == NodeWrapper::<US, SS, SU>::SampleToUnit(n));
                        assert forall|k: int| 0 <= k < n.inputs@.len() implies (#[trigger] n.inputs@[k])
                            < self.bus.audio_bus@.len() by {
                            assert(nodes0[m].inputs_view()[k] < audio0.len());
                        }
                    }
                    gather_into(&mut n.input_buffer, &self.bus.audio_bus, &n.inputs);
                    let ghost dev0 = n.device;
                    n.device.tick(t, &n.input_buffer, &mut n.output_buffer);
                    proof {
                        dev0.tick_spec_wf(t0, n.input_buffer@);
                        assert(nodes0[m].output_arity() == DeviceIOType::Exactly(
                            nodes0[m].out_count(),
                        ));
                        assert(n.output_buffer@.len() == n.outputs@.len());
                        assert forall|k: int| 0 <= k < n.outputs@.len() implies (
                        #[trigger] n.outputs@[k]) < self.bus.unit_bus@.len() by {
                            assert(nodes0[m].outputs_view()[k] < unit0.len());
                        }
                    }
                    write_outputs(&mut self.bus.unit_bus, &n.outputs, &n.output_buffer);
                    NodeWrapper::SampleToUnit(n)
                },
            };
            done.push(w2);
            proof {
                assert(nodes0.skip(m).remove(0) =~= nodes0.skip(m + 1));
                crate::model::lemma_run_nodes_len(nodes0, audio0, unit0, t0, m);
                crate::model::lemma_run_nodes_len(nodes0, audio0, unit0, t0, m + 1);
                let step = crate::model::run_one(nodes0[m], r_prev.1, r_prev.2, t0);
                assert(w2.dev_state() == step.0);
                assert(self.bus.audio_bus@ == crate::model::run_nodes(
                    nodes0,
                    audio0,
                    unit0,
                    t0,
                    m + 1,
                ).1);
                assert(self.bus.unit_bus@ == crate::model::run_nodes(
                    nodes0,
                    audio0,
                    unit0,
                    t0,
                    m + 1,
                ).2);
            }
        }
        proof {
            assert(nodes0.skip(done@.len() as int) =~= nodes0.skip(nodes0.len() as int));
            assert(done@.len() == nodes0.len());
        }
        self.devices = done;
        self.t = self.t + 1;
        proof {
            let alen = self.bus.audio_bus@.len();
            let ulen = self.bus.unit_bus@.len();
            assert forall|x: int| 0 <= x < self.devices@.len() implies wf_node(
                #[trigger] self.devices@[x],
                alen,
                ulen,
            ) by {
                assert(wf_node(nodes0[x], audio0.len(), unit0.len()));
            }
            crate::model::lemma_outputs_disjoint_same(nodes0, self.devices@);
        }
    }
}

/// Clear `buf` and refill it with the bus values at the slot indices in
/// `slots`, preserving slot-list order.
fn gather_into<V: Copy>(buf: &mut Vec<V>, bus: &Vec<V>, slots: &Vec<usize>)
    requires
        forall|k: int| 0 <= k < slots@.len() ==> (#[trigger] slots@[k]) < bus@.len(),
    ensures
        final(buf)@ == crate::model::gather(bus@, slots@),
{
    buf.clear();
    let mut k: usize = 0;
    while k < slots.len()
        invariant
            k <= slots@.len(),
            forall|x: int| 0 <= x < slots@.len() ==> (#[trigger] slots@[x]) < bus@.len(),
            buf@ == crate::model::gather(bus@, slots@.take(k as int)),
        decreases slots@.len() - k,
    {
        let s = slots[k];
        buf.push(bus[s]);
        k += 1;
        proof {
            assert(crate::model::gather(bus@, slots@.take(k as int)) =~= crate::model::gather(
                bus@,
                slots@.take(k - 1),
            ).push(bus@[slots@[k - 1] as int]));
        }
    }
    proof {
        assert(slots@.take(slots@.len() as int) =~= slots@);
    }
}

/// Store the frame `vals` into `bus`, value by value, at the slot indices in
/// `slots`.
fn write_outputs<V: Copy>(bus: &mut Vec<V>, slots: &Vec<usize>, vals: &Vec<V>)
    requires
        forall|k: int| 0 <= k < slots@.len() ==> (#[trigger] slots@[k]) < old(bus)@.len(),
        vals@.len() == slots@.len(),
    ensures
        final(bus)@ == crate::model::scatter(old(bus)@, slots@, vals@),
        final(bus)@.len() == old(bus)@.len(),
{
    let ghost bus0 = bus@;
    let mut k: usize = 0;
    while k < slots.len()
        invariant
            k <= slots@.len(),
            vals@.len() == slots@.len(),
            forall|x: int| 0 <= x < slots@.len() ==> (#[trigger] slots@[x]) < bus0.len(),
            bus@.len() == bus0.len(),
            bus@ == crate::model::scatter(bus0, slots@.take(k as int), vals@.take(k as int)),
        decreases slots@.len() - k,
    {
        let s = slots[k];
        bus[s] = vals[k];
        k += 1;
        proof {
            assert(slots@.take(k as int).drop_last() =~= slots@.take(k - 1));
            assert(vals@.take(k as int).drop_last() =~= vals@.take(k - 1));
            assert(slots@.take(k as int).last() == slots@[k - 1]);
        }
    }
    proof {
        assert(slots@.take(slots@.len() as int) =~= slots@);
        assert(vals@.take(vals@.len() as int) =~= vals@);
        crate::model::lemma_scatter_len(bus0, slots@, vals@);
    }
}

/// Registration of a device whose input value type is `I`, output value type
/// is `O`, and concrete device type is `D`.
///
/// Registering allocates one fresh bus slot per declared output channel,
/// appends the node to the graph, and returns a typed handle to it; a device
/// declaring `Any` outputs is a fatal configuration error.
pub trait AddDevice<I, O, D> {
    fn add(&mut self, d: D) -> (r: Result<DeviceNode<I, O>, &'static str>);
}

impl<US: Device<(), Sample>, SS: Device<Sample, Sample>, SU: Device<Sample, ()>> AddDevice<
    (),
    Sample,
    US,
> for DeviceGraph<US, SS, SU> {
    fn add(&mut self, d: US) -> (r: Result<DeviceNode<(), Sample>, &'static str>)
        ensures
            final(self).t == old(self).t,
            (r matches Ok(_)) <==> (d.output_arity() matches DeviceIOType::Exactly(_)),
            r matches Err(e) ==> e@ == "DeviceGraph does not support Any outputs"@,
            r matches Err(_) ==> final(self).devices@ == old(self).devices@,
            r matches Err(_) ==> final(self).bus.audio_bus@ == old(self).bus.audio_bus@,
            r matches Err(_) ==> final(self).bus.unit_bus@ == old(self).bus.unit_bus@,
            r matches Ok(h) ==> h.0 == old(self).devices@.len(),
            r matches Ok(_) ==> final(self).devices@.len() == old(self).devices@.len() + 1,
            forall|x: int|
                0 <= x < old(self).devices@.len() ==> final(self).devices@[x] == old(
                    self,
                ).devices@[x],
            r matches Ok(_) ==> final(self).bus.unit_bus@ == old(self).bus.unit_bus@,
            d.output_arity() matches DeviceIOType::Exactly(c) ==> r matches Ok(_) ==> ({
                let w = final(self).devices@.last();
                &&& w.dev_state() == DeviceState::<US, SS, SU>::UnitToSample(d)
                &&& w.inputs_view() == Seq::<usize>::empty()
                &&& w.out_count() == c
                &&& w.outputs_view().len() == c
                &&& forall|k: int|
                    0 <= k < c ==> #[trigger] w.outputs_view()[k] == old(
                        self,
                    ).bus.audio_bus@.len() + k
                &&& final(self).bus.audio_bus@ == old(self).bus.audio_bus@ + Seq::new(
                    c as nat,
                    |x: int| 0 as Sample,
                )
            }),
            old(self).wf() ==> final(self).wf(),
    {
        let mut n = match Node::from_device(d) {
            Ok(n) => n,
            Err(e) => {
                return Err(e);
            },
        };
        let ghost audio0 = self.bus.audio_bus@;
        let ghost unit0 = self.bus.unit_bus@;
        let ghost devices0 = self.devices@;
        let ghost t0 = self.t;
        let ghost nout0 = n.num_outputs;
        let mut k: usize = 0;
        while k < n.num_outputs
            invariant
                k <= n.num_outputs,
                n.outputs@.len() == k,
                forall|x: int| 0 <= x < k ==> #[trigger] n.outputs@[x] == audio0.len() + x,
                self.bus.audio_bus@.len() == audio0.len() + k,
                forall|s: int|
                    0 <= s < audio0.len() ==> #[trigger] self.bus.audio_bus@[s] == audio0[s],
                forall|s: int|
                    audio0.len() <= s < audio0.len() + k ==> #[trigger] self.bus.audio_bus@[s]
                        == 0 as Sample,
                self.bus.unit_bus@ == unit0,
                self.devices@ == devices0,
                self.t == t0,
                n.inputs@ == Seq::<usize>::empty(),
                n.device == d,
                n.num_outputs == nout0,
            decreases n.num_outputs - k,
        {
            let slot = self.bus.audio_bus.len();
            self.bus.audio_bus.push(0);
            n.outputs.push(slot);
            k += 1;
        }
        let idx = self.devices.len();
        self.devices.push(NodeWrapper::UnitToSample(n));
        proof {
            assert(self.bus.audio_bus@ =~= audio0 + Seq::new(
                n.num_outputs as nat,
                |x: int| 0 as Sample,
            ));
            let alen = self.bus.audio_bus@.len();
            let ulen = self.bus.unit_bus@.len();
            if wf_nodes(devices0, audio0.len(), unit0.len()) {
                assert forall|x: int| 0 <= x < self.devices@.len() implies wf_node(
                    #[trigger] self.devices@[x],
                    alen,
                    ulen,
                ) by {
                    if x < devices0.len() {
                        crate::model::lemma_wf_node_grow(
                            devices0[x],
                            audio0.len(),
                            unit0.len(),
                            alen,
                            ulen,
                        );
                    }
                }
                assert forall|j1: int, k1: int, j2: int, k2: int|
                    0 <= j1 < self.devices@.len() && 0 <= k1
                        < self.devices@[j1].outputs_view().len() && 0 <= j2
                        < self.devices@.len() && 0 <= k2
                        < self.devices@[j2].outputs_view().len()
                        && self.devices@[j1].writes_audio() == self.devices@[j2].writes_audio()
                        && (j1 != j2 || k1 != k2) implies #[trigger] self.devices@[j1].outputs_view()[k1]
                    != #[trigger] self.devices@[j2].outputs_view()[k2] by {
                    if j1 < devices0.len() && j2 < devices0.len() {
                        assert(outputs_disjoint(devices0));
                    } else {
                        if j1 < devices0.len() {
                            assert(wf_node(devices0[j1], audio0.len(), unit0.len()));
                        }
                        if j2 < devices0.len() {
                            assert(wf_node(devices0[j2], audio0.len(), unit0.len()));
                        }
                    }
                }
            }
        }
        Ok(DeviceNode(idx, PhantomData, PhantomData))
    }
}

impl<US: Device<(), Sample>, SS: Device<Sample, Sample>, SU: Device<Sample, ()>> AddDevice<
    Sample,
    Sample,
    SS,
> for DeviceGraph<US, SS, SU> {
    fn add(&mut self, d: SS) -> (r: Result<DeviceNode<Sample, Sample>, &'static str>)
        ensures
            final(self).t == old(self).t,
            (r matches Ok(_)) <==> (d.output_arity() matches DeviceIOType::Exactly(_)),
            r matches Err(e) ==> e@ == "DeviceGraph does not support Any outputs"@,
            r matches Err(_) ==> final(self).devices@ == old(self).devices@,
            r matches Err(_) ==> final(self).bus.audio_bus@ == old(self).bus.audio_bus@,
            r matches Err(_) ==> final(self).bus.unit_bus@ == old(self).bus.unit_bus@,
            r matches Ok(h) ==> h.0 == old(self).devices@.len(),
            r matches Ok(_) ==> final(self).devices@.len() == old(self).devices@.len() + 1,
            forall|x: int|
                0 <= x < old(self).devices@.len() ==> final(self).devices@[x] == old(
                    self,
                ).devices@[x],
            r matches Ok(_) ==> final(self).bus.unit_bus@ == old(self).bus.unit_bus@,
            d.output_arity() matches DeviceIOType::Exactly(c) ==> r matches Ok(_) ==> ({
                let w = final(self).devices@.last();
                &&& w.dev_state() == DeviceState::<US, SS, SU>::SampleToSample(d)
                &&& w.inputs_view() == Seq::<usize>::empty()
                &&& w.out_count() == c
                &&& w.outputs_view().len() == c
                &&& forall|k: int|
                    0 <= k < c ==> #[trigger] w.outputs_view()[k] == old(
                        self,
                    ).bus.audio_bus@.len() + k
                &&& final(self).bus.audio_bus@ == old(self).bus.audio_bus@ + Seq::new(
                    c as nat,
                    |x: int| 0 as Sample,
                )
            }),
            old(self).wf() ==> final(self).wf(),
    {
        let mut n = match Node::from_device(d) {
            Ok(n) => n,
            Err(e) => {
                return Err(e);
            },
        };
        let ghost audio0 = self.bus.audio_bus@;
        let ghost unit0 = self.bus.unit_bus@;
        let ghost devices0 = self.devices@;
        let ghost t0 = self.t;
        let ghost nout0 = n.num_outputs;
        let mut k: usize = 0;
        while k < n.num_outputs
            invariant
                k <= n.num_outputs,
                n.outputs@.len() == k,
                forall|x: int| 0 <= x < k ==> #[trigger] n.outputs@[x] == audio0.len() + x,
                self.bus.audio_bus@.len() == audio0.len() + k,
                forall|s: int|
                    0 <= s < audio0.len() ==> #[trigger] self.bus.audio_bus@[s] == audio0[s],
                forall|s: int|
                    audio0.len() <= s < audio0.len() + k ==> #[trigger] self.bus.audio_bus@[s]
                        == 0 as Sample,
                self.bus.unit_bus@ == unit0,
                self.devices@ == devices0,
                self.t == t0,
                n.inputs@ == Seq::<usize>::empty(),
                n.device == d,
                n.num_outputs == nout0,
            decreases n.num_outputs - k,
        {
            let slot = self.bus.audio_bus.len();
            self.bus.audio_bus.push(0);
            n.outputs.push(slot);
            k += 1;
        }
        let idx = self.devices.len();
        self.devices.push(NodeWrapper::SampleToSample(n));
        proof {
            assert(self.bus.audio_bus@ =~= audio0 + Seq::new(
                n.num_outputs as nat,
                |x: int| 0 as Sample,
            ));
            let alen = self.bus.audio_bus@.len();
            let ulen = self.bus.unit_bus@.len();
            if wf_nodes(devices0, audio0.len(), unit0.len()) {
                assert forall|x: int| 0 <= x < self.devices@.len() implies wf_node(
                    #[trigger] self.devices@[x],
                    alen,
                    ulen,
                ) by {
                    if x < devices0.len() {
                        crate::model::lemma_wf_node_grow(
                            devices0[x],
                            audio0.len(),
                            unit0.len(),
                            alen,
                            ulen,
                        );
                    }
                }
                assert forall|j1: int, k1: int, j2: int, k2: int|
                    0 <= j1 < self.devices@.len() && 0 <= k1
                        < self.devices@[j1].outputs_view().len() && 0 <= j2
                        < self.devices@.len() && 0 <= k2
                        < self.devices@[j2].outputs_view().len()
                        && self.devices@[j1].writes_audio() == self.devices@[j2].writes_audio()
                        && (j1 != j2 || k1 != k2) implies #[trigger] self.devices@[j1].outputs_view()[k1]
                    != #[trigger] self.devices@[j2].outputs_view()[k2] by {
                    if j1 < devices0.len() && j2 < devices0.len() {
                        assert(outputs_disjoint(devices0));
                    } else {
                        if j1 < devices0.len() {
                            assert(wf_node(devices0[j1], audio0.len(), unit0.len()));
                        }
                        if j2 < devices0.len() {
                            assert(wf_node(devices0[j2], audio0.len(), unit0.len()));
                        }
                    }
                }
            }
        }
        Ok(DeviceNode(idx, PhantomData, PhantomData))
    }
}

impl<US: Device<(), Sample>, SS: Device<Sample, Sample>, SU: Device<Sample, ()>> AddDevice<
    Sample,
    (),
    SU,
> for DeviceGraph<US, SS, SU> {
    fn add(&mut self, d: SU) -> (r: Result<DeviceNode<Sample, ()>, &'static str>)
        ensures
            final(self).t == old(self).t,
            (r matches Ok(_)) <==> (d.output_arity() matches DeviceIOType::Exactly(_)),
            r matches Err(e) ==> e@ == "DeviceGraph does not support Any outputs"@,
            r matches Err(_) ==> final(self).devices@ == old(self).devices@,
            r matches Err(_) ==> final(self).bus.audio_bus@ == old(self).bus.audio_bus@,
            r matches Err(_) ==> final(self).bus.unit_bus@ == old(self).bus.unit_bus@,
            r matches Ok(h) ==> h.0 == old(self).devices@.len(),
            r matches Ok(_) ==> final(self).devices@.len() == old(self).devices@.len() + 1,
            forall|x: int|
                0 <= x < old(self).devices@.len() ==> final(self).devices@[x] == old(
                    self,
                ).devices@[x],
            r matches Ok(_) ==> final(self).bus.audio_bus@ == old(self).bus.audio_bus@,
            d.output_arity() matches DeviceIOType::Exactly(c) ==> r matches Ok(_) ==> ({
                let w = final(self).devices@.last();
                &&& w.dev_state() == DeviceState::<US, SS, SU>::SampleToUnit(d)
                &&& w.inputs_view() == Seq::<usize>::empty()
                &&& w.out_count() == c
                &&& w.outputs_view().len() == c
                &&& forall|k: int|
                    0 <= k < c ==> #[trigger] w.outputs_view()[k] == old(
                        self,
                    ).bus.unit_bus@.len() + k
                &&& final(self).bus.unit_bus@ == old(self).bus.unit_bus@ + Seq::new(
                    c as nat,
                    |x: int| (),
                )
            }),
            old(self).wf() ==> final(self).wf(),
    {
        let mut n = match Node::from_device(d) {
            Ok(n) => n,
            Err(e) => {
                return Err(e);
            },
        };
        let ghost audio0 = self.bus.audio_bus@;
        let ghost unit0 = self.bus.unit_bus@;
        let ghost devices0 = self.devices@;
        let ghost t0 = self.t;
        let ghost nout0 = n.num_outputs;
        let mut k: usize = 0;
        while k < n.num_outputs
            invariant
                k <= n.num_outputs,
                n.outputs@.len() == k,
                forall|x: int| 0 <= x < k ==> #[trigger] n.outputs@[x] == unit0.len() + x,
                self.bus.unit_bus@.len() == unit0.len() + k,
                forall|s: int|
                    0 <= s < unit0.len() ==> #[trigger] self.bus.unit_bus@[s] == unit0[s],
                self.bus.audio_bus@ == audio0,
                self.devices@ == devices0,
                self.t == t0,
                n.inputs@ == Seq::<usize>::empty(),
                n.device == d,
                n.num_outputs == nout0,
            decreases n.num_outputs - k,
        {
            let slot = self.bus.unit_bus.len();
            self.bus.unit_bus.push(());
            n.outputs.push(slot);
            k += 1;
        }
        let idx = self.devices.len();
        self.devices.push(NodeWrapper::SampleToUnit(n));
        proof {
            assert(self.bus.unit_bus@ =~= unit0 + Seq::new(n.num_outputs as nat, |x: int| ()));
            let alen = self.bus.audio_bus@.len();
            let ulen = self.bus.unit_bus@.len();
            if wf_nodes(devices0, audio0.len(), unit0.len()) {
                assert forall|x: int| 0 <= x < self.devices@.len() implies wf_node(
                    #[trigger] self.devices@[x],
                    alen,
                    ulen,
                ) by {
                    if x < devices0.len() {
                        crate::model::lemma_wf_node_grow(
                            devices0[x],
                            audio0.len(),
                            unit0.len(),
                            alen,
                            ulen,
                        );
                    }
                }
                assert forall|j1: int, k1: int, j2: int, k2: int|
                    0 <= j1 < self.devices@.len() && 0 <= k1
                        < self.devices@[j1].outputs_view().len() && 0 <= j2
                        < self.devices@.len() && 0 <= k2
                        < self.devices@[j2].outputs_view().len()
                        && self.devices@[j1].writes_audio() == self.devices@[j2].writes_audio()
                        && (j1 != j2 || k1 != k2) implies #[trigger] self.devices@[j1].outputs_view()[k1]
                    != #[trigger] self.devices@[j2].outputs_view()[k2] by {
                    if j1 < devices0.len() && j2 < devices0.len() {
                        assert(outputs_disjoint(devices0));
                    } else {
                        if j1 < devices0.len() {
                            assert(wf_node(devices0[j1], audio0.len(), unit0.len()));
                        }
                        if j2 < devices0.len() {
                            assert(wf_node(devices0[j2], audio0.len(), unit0.len()));
                        }
                    }
                }
            }
        }
        Ok(DeviceNode(idx, PhantomData, PhantomData))
    }
}

} // verus!
