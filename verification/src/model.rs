//! The mathematical model of the graph: projections of nodes, well-formedness
//! of wiring, and the pure functional description of one evaluation step.

use vstd::prelude::*;

use crate::types::{Device, DeviceIOType, Sample, Time};
use crate::NodeWrapper;

verus! {

/// The state of one registered device, tagged with its variant, as left
/// behind by a tick.
pub enum DeviceState<US, SS, SU> {
    UnitToSample(US),
    SampleToSample(SS),
    SampleToUnit(SU),
}

impl<US, SS, SU> NodeWrapper<US, SS, SU> {
    /// The bus slot indices feeding this node's inputs.
    pub open spec fn inputs_view(self) -> Seq<usize> {
        match self {
            NodeWrapper::UnitToSample(n) => n.inputs@,
            NodeWrapper::SampleToSample(n) => n.inputs@,
            NodeWrapper::SampleToUnit(n) => n.inputs@,
        }
    }

    /// The bus slot indices this node owns for its outputs.
    pub open spec fn outputs_view(self) -> Seq<usize> {
        match self {
            NodeWrapper::UnitToSample(n) => n.outputs@,
            NodeWrapper::SampleToSample(n) => n.outputs@,
            NodeWrapper::SampleToUnit(n) => n.outputs@,
        }
    }

    /// The declared output channel count recorded at registration.
    pub open spec fn out_count(self) -> usize {
        match self {
            NodeWrapper::UnitToSample(n) => n.num_outputs,
            NodeWrapper::SampleToSample(n) => n.num_outputs,
            NodeWrapper::SampleToUnit(n) => n.num_outputs,
        }
    }

    /// Whether this node's inputs read from the sample bus (as opposed to the
    /// unit bus).
    pub open spec fn reads_audio(self) -> bool {
        match self {
            NodeWrapper::UnitToSample(_) => false,
            NodeWrapper::SampleToSample(_) => true,
            NodeWrapper::SampleToUnit(_) => true,
        }
    }

    /// Whether this node's outputs write to the sample bus (as opposed to the
    /// unit bus).
    pub open spec fn writes_audio(self) -> bool {
        match self {
            NodeWrapper::UnitToSample(_) => true,
            NodeWrapper::SampleToSample(_) => true,
            NodeWrapper::SampleToUnit(_) => false,
        }
    }
}

impl<US: Device<(), Sample>, SS: Device<Sample, Sample>, SU: Device<Sample, ()>> NodeWrapper<
    US,
    SS,
    SU,
> {
    /// The wrapped device's declared input arity.
    pub open spec fn input_arity(self) -> DeviceIOType {
        match self {
            NodeWrapper::UnitToSample(n) => n.device.input_arity(),
            NodeWrapper::SampleToSample(n) => n.device.input_arity(),
            NodeWrapper::SampleToUnit(n) => n.device.input_arity(),
        }
    }

    /// The wrapped device's declared output arity.
    pub open spec fn output_arity(self) -> DeviceIOType {
        match self {
            NodeWrapper::UnitToSample(n) => n.device.output_arity(),
            NodeWrapper::SampleToSample(n) => n.device.output_arity(),
            NodeWrapper::SampleToUnit(n) => n.device.output_arity(),
        }
    }

    /// The wrapped device's state, tagged with the node's variant.
    pub open spec fn dev_state(self) -> DeviceState<US, SS, SU> {
        match self {
            NodeWrapper::UnitToSample(n) => DeviceState::UnitToSample(n.device),
            NodeWrapper::SampleToSample(n) => DeviceState::SampleToSample(n.device),
            NodeWrapper::SampleToUnit(n) => DeviceState::SampleToUnit(n.device),
        }
    }

    /// Whether this node, as an edge destination, accepts one more wired
    /// input: always for a variable input arity, and only while the wired
    /// input count stays below a fixed input arity.
    pub open spec fn accepts_edge(self) -> bool {
        match self.input_arity() {
            DeviceIOType::Any => true,
            DeviceIOType::Exactly(m) => self.inputs_view().len() < m,
        }
    }
}

/// The frame read from `bus` at the slot indices `slots`, in slot-list order.
pub open spec fn gather<V>(bus: Seq<V>, slots: Seq<usize>) -> Seq<V> {
    Seq::new(slots.len(), |k: int| bus[slots[k] as int])
}

/// `bus` with `vals[k]` written at index `slots[k]` for every position `k`;
/// on duplicate slots the later position wins, as in-order stores do.
pub open spec fn scatter<V>(bus: Seq<V>, slots: Seq<usize>, vals: Seq<V>) -> Seq<V>
    recommends
        slots.len() == vals.len(),
    decreases slots.len(),
{
    if slots.len() == 0 || vals.len() == 0 {
        bus
    } else {
        let rest = scatter(bus, slots.drop_last(), vals.drop_last());
        if (slots.last() as int) < bus.len() {
            rest.update(slots.last() as int, vals.last())
        } else {
            rest
        }
    }
}

/// A node is well formed with respect to the two bus lengths: it owns exactly
/// its declared number of output slots, all of its slot indices are in bounds
/// of the bus they address, and its wired input count respects a fixed input
/// arity.
pub open spec fn wf_node<US: Device<(), Sample>, SS: Device<Sample, Sample>, SU: Device<
    Sample,
    (),
>>(w: NodeWrapper<US, SS, SU>, audio_len: nat, unit_len: nat) -> bool {
    &&& w.outputs_view().len() == w.out_count()
    &&& w.output_arity() == DeviceIOType::Exactly(w.out_count())
    &&& forall|k: int|
        0 <= k < w.outputs_view().len() ==> (#[trigger] w.outputs_view()[k]) < (
        if w.writes_audio() {
            audio_len
        } else {
            unit_len
        })
    &&& forall|k: int|
        0 <= k < w.inputs_view().len() ==> (#[trigger] w.inputs_view()[k]) < (
        if w.reads_audio() {
            audio_len
        } else {
            unit_len
        })
    &&& (w.input_arity() matches DeviceIOType::Exactly(m) ==> w.inputs_view().len() <= m)
}

/// No bus slot is owned by two output channels: any two distinct
/// (node, channel) pairs that write the same bus own distinct slots.
pub open spec fn outputs_disjoint<US, SS, SU>(nodes: Seq<NodeWrapper<US, SS, SU>>) -> bool {
    forall|j1: int, k1: int, j2: int, k2: int|
        0 <= j1 < nodes.len() && 0 <= k1 < nodes[j1].outputs_view().len() && 0 <= j2 < nodes.len()
            && 0 <= k2 < nodes[j2].outputs_view().len() && nodes[j1].writes_audio()
            == nodes[j2].writes_audio() && (j1 != j2 || k1 != k2) ==> #[trigger] nodes[j1].outputs_view()[k1]
            != #[trigger] nodes[j2].outputs_view()[k2]
}

/// Well-formedness of a whole node list against the two bus lengths.
pub open spec fn wf_nodes<US: Device<(), Sample>, SS: Device<Sample, Sample>, SU: Device<
    Sample,
    (),
>>(nodes: Seq<NodeWrapper<US, SS, SU>>, audio_len: nat, unit_len: nat) -> bool {
    &&& forall|j: int| 0 <= j < nodes.len() ==> wf_node(#[trigger] nodes[j], audio_len, unit_len)
    &&& outputs_disjoint(nodes)
}

/// One evaluation step of a single node against the current bus contents:
/// the device's next state, and the two buses after the node's outputs are
/// stored into its owned slots.
pub open spec fn run_one<US: Device<(), Sample>, SS: Device<Sample, Sample>, SU: Device<
    Sample,
    (),
>>(w: NodeWrapper<US, SS, SU>, audio: Seq<Sample>, unit: Seq<()>, t: Time) -> (
    DeviceState<US, SS, SU>,
    Seq<Sample>,
    Seq<()>,
) {
    match w {
        NodeWrapper::UnitToSample(n) => {
            let r = n.device.tick_spec(t, gather(unit, n.inputs@));
            (DeviceState::UnitToSample(r.0), scatter(audio, n.outputs@, r.1), unit)
        },
        NodeWrapper::SampleToSample(n) => {
            let r = n.device.tick_spec(t, gather(audio, n.inputs@));
            (DeviceState::SampleToSample(r.0), scatter(audio, n.outputs@, r.1), unit)
        },
        NodeWrapper::SampleToUnit(n) => {
            let r = n.device.tick_spec(t, gather(audio, n.inputs@));
            (DeviceState::SampleToUnit(r.0), audio, scatter(unit, n.outputs@, r.1))
        },
    }
}

/// Slot ownership depends only on each node's owned output slots and on
/// which bus it writes, so it carries over to any node list that agrees on
/// those.
pub proof fn lemma_outputs_disjoint_same<US, SS, SU>(
    n1: Seq<NodeWrapper<US, SS, SU>>,
    n2: Seq<NodeWrapper<US, SS, SU>>,
)
    requires
        outputs_disjoint(n1),
        n2.len() == n1.len(),
        forall|x: int|
            0 <= x < n2.len() ==> (#[trigger] n2[x]).outputs_view() == n1[x].outputs_view()
                && n2[x].writes_audio() == n1[x].writes_audio(),
    ensures
        outputs_disjoint(n2),
{
    assert forall|j1: int, k1: int, j2: int, k2: int|
        0 <= j1 < n2.len() && 0 <= k1 < n2[j1].outputs_view().len() && 0 <= j2 < n2.len() && 0 <= k2
            < n2[j2].outputs_view().len() && n2[j1].writes_audio() == n2[j2].writes_audio() && (j1
            != j2 || k1 != k2) implies #[trigger] n2[j1].outputs_view()[k1]
        != #[trigger] n2[j2].outputs_view()[k2] by {
        assert(n1[j1].outputs_view()[k1] != n1[j2].outputs_view()[k2]);
    }
}

/// Storing a frame into a bus never changes the bus's length.
pub proof fn lemma_scatter_len<V>(bus: Seq<V>, slots: Seq<usize>, vals: Seq<V>)
    ensures
        scatter(bus, slots, vals).len() == bus.len(),
    decreases slots.len(),
{
    if slots.len() == 0 || vals.len() == 0 {
    } else {
        lemma_scatter_len(bus, slots.drop_last(), vals.drop_last());
    }
}

/// A node well formed against two buses stays well formed when the buses
/// only grow.
pub proof fn lemma_wf_node_grow<US: Device<(), Sample>, SS: Device<Sample, Sample>, SU: Device<
    Sample,
    (),
>>(w: NodeWrapper<US, SS, SU>, a1: nat, u1: nat, a2: nat, u2: nat)
    requires
        wf_node(w, a1, u1),
        a1 <= a2,
        u1 <= u2,
    ensures
        wf_node(w, a2, u2),
{
}

/// The frame of sample values a node's device produces when the node runs
/// against the given bus contents; empty for a node whose outputs are not
/// sample-typed.
pub open spec fn audio_frame<US: Device<(), Sample>, SS: Device<Sample, Sample>, SU: Device<
    Sample,
    (),
>>(w: NodeWrapper<US, SS, SU>, audio: Seq<Sample>, unit: Seq<()>, t: Time) -> Seq<Sample> {
    match w {
        NodeWrapper::UnitToSample(n) => n.device.tick_spec(t, gather(unit, n.inputs@)).1,
        NodeWrapper::SampleToSample(n) => n.device.tick_spec(t, gather(audio, n.inputs@)).1,
        NodeWrapper::SampleToUnit(_) => Seq::empty(),
    }
}

/// The state after the first `j` nodes of `nodes` have each processed one
/// frame, in order, starting from the given bus contents: the device states
/// they were left in, and the two buses.
pub open spec fn run_nodes<US: Device<(), Sample>, SS: Device<Sample, Sample>, SU: Device<
    Sample,
    (),
>>(nodes: Seq<NodeWrapper<US, SS, SU>>, audio: Seq<Sample>, unit: Seq<()>, t: Time, j: int) -> (
    Seq<DeviceState<US, SS, SU>>,
    Seq<Sample>,
    Seq<()>,
)
    decreases j,
{
    if j <= 0 {
        (Seq::empty(), audio, unit)
    } else {
        let prev = run_nodes(nodes, audio, unit, t, j - 1);
        let step = run_one(nodes[j - 1], prev.1, prev.2, t);
        (prev.0.push(step.0), step.1, step.2)
    }
}

/// Running the first `j` nodes leaves one device state per node run and
/// never changes the length of either bus.
pub proof fn lemma_run_nodes_len<US: Device<(), Sample>, SS: Device<Sample, Sample>, SU: Device<
    Sample,
    (),
>>(nodes: Seq<NodeWrapper<US, SS, SU>>, audio: Seq<Sample>, unit: Seq<()>, t: Time, j: int)
    requires
        0 <= j,
    ensures
        run_nodes(nodes, audio, unit, t, j).0.len() == j,
        run_nodes(nodes, audio, unit, t, j).1.len() == audio.len(),
        run_nodes(nodes, audio, unit, t, j).2.len() == unit.len(),
    decreases j,
{
    if j > 0 {
        lemma_run_nodes_len(nodes, audio, unit, t, j - 1);
        let prev = run_nodes(nodes, audio, unit, t, j - 1);
        match nodes[j - 1] {
            NodeWrapper::UnitToSample(n) => {
                lemma_scatter_len(
                    prev.1,
                    n.outputs@,
                    n.device.tick_spec(t, gather(prev.2, n.inputs@)).1,
                );
            },
            NodeWrapper::SampleToSample(n) => {
                lemma_scatter_len(
                    prev.1,
                    n.outputs@,
                    n.device.tick_spec(t, gather(prev.1, n.inputs@)).1,
                );
            },
            NodeWrapper::SampleToUnit(n) => {
                lemma_scatter_len(
                    prev.2,
                    n.outputs@,
                    n.device.tick_spec(t, gather(prev.1, n.inputs@)).1,
                );
            },
        }
    }
}

} // verus!
