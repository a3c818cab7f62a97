//! The laws of the graph: properties that hold of every well-formed graph,
//! stated over the model and proved once and for all.

use vstd::prelude::*;

use crate::model::{
    audio_frame, gather, lemma_run_nodes_len, lemma_scatter_len, outputs_disjoint, run_nodes,
    scatter, wf_node, wf_nodes,
};
use crate::types::{Device, DeviceIOType, Sample, Time};
use crate::NodeWrapper;

verus! {

/// Storing a frame leaves `vals[k]` at slot `slots[k]` whenever the slots
/// are pairwise distinct and the slot is in bounds.
pub proof fn lemma_scatter_index<V>(bus: Seq<V>, slots: Seq<usize>, vals: Seq<V>, k: int)
    requires
        slots.len() == vals.len(),
        0 <= k < slots.len(),
        (slots[k] as int) < bus.len(),
        forall|x: int, y: int|
            0 <= x < slots.len() && 0 <= y < slots.len() && x != y ==> slots[x] != slots[y],
    ensures
        scatter(bus, slots, vals)[slots[k] as int] == vals[k],
    decreases slots.len(),
{
    lemma_scatter_len(bus, slots.drop_last(), vals.drop_last());
    if k == slots.len() - 1 {
    } else {
        assert forall|x: int, y: int|
            0 <= x < slots.drop_last().len() && 0 <= y < slots.drop_last().len() && x
                != y implies slots.drop_last()[x] != slots.drop_last()[y] by {
            assert(slots[x] != slots[y]);
        }
        lemma_scatter_index(bus, slots.drop_last(), vals.drop_last(), k);
        assert(slots.last() != slots[k]);
    }
}

/// Storing a frame does not touch any slot outside its slot list.
pub proof fn lemma_scatter_untouched<V>(bus: Seq<V>, slots: Seq<usize>, vals: Seq<V>, s: int)
    requires
        0 <= s < bus.len(),
        forall|x: int| 0 <= x < slots.len() ==> (#[trigger] slots[x]) as int != s,
    ensures
        scatter(bus, slots, vals)[s] == bus[s],
    decreases slots.len(),
{
    if slots.len() == 0 || vals.len() == 0 {
    } else {
        lemma_scatter_untouched(bus, slots.drop_last(), vals.drop_last(), s);
        lemma_scatter_len(bus, slots.drop_last(), vals.drop_last());
        assert(slots.last() == slots[slots.len() - 1]);
    }
}

/// A sample bus slot that none of the nodes `j1 .. j2` owns as an output
/// still holds, after they have run, the value it held before.
pub proof fn lemma_run_untouched_audio<US: Device<(), Sample>, SS: Device<Sample, Sample>, SU: Device<
    Sample,
    (),
>>(
    nodes: Seq<NodeWrapper<US, SS, SU>>,
    audio: Seq<Sample>,
    unit: Seq<()>,
    t: Time,
    j1: int,
    j2: int,
    s: int,
)
    requires
        0 <= j1 <= j2 <= nodes.len(),
        0 <= s < audio.len(),
        forall|j: int, k: int|
            j1 <= j < j2 && 0 <= k < nodes[j].outputs_view().len() && nodes[j].writes_audio()
                ==> (#[trigger] nodes[j].outputs_view()[k]) as int != s,
    ensures
        run_nodes(nodes, audio, unit, t, j2).1[s] == run_nodes(nodes, audio, unit, t, j1).1[s],
    decreases j2 - j1,
{
    if j2 > j1 {
        lemma_run_untouched_audio(nodes, audio, unit, t, j1, j2 - 1, s);
        lemma_run_nodes_len(nodes, audio, unit, t, j2 - 1);
        let prev = run_nodes(nodes, audio, unit, t, j2 - 1);
        match nodes[j2 - 1] {
            NodeWrapper::UnitToSample(n) => {
                assert forall|x: int| 0 <= x < n.outputs@.len() implies (#[trigger] n.outputs@[x])
                    as int != s by {
                    assert(nodes[j2 - 1].outputs_view()[x] as int != s);
                }
                lemma_scatter_untouched(
                    prev.1,
                    n.outputs@,
                    n.device.tick_spec(t, gather(prev.2, n.inputs@)).1,
                    s,
                );
            },
            NodeWrapper::SampleToSample(n) => {
                assert forall|x: int| 0 <= x < n.outputs@.len() implies (#[trigger] n.outputs@[x])
                    as int != s by {
                    assert(nodes[j2 - 1].outputs_view()[x] as int != s);
                }
                lemma_scatter_untouched(
                    prev.1,
                    n.outputs@,
                    n.device.tick_spec(t, gather(prev.1, n.inputs@)).1,
                    s,
                );
            },
            NodeWrapper::SampleToUnit(_) => {},
        }
    }
}

/// Law: after the whole node list has run once, every sample bus slot owned
/// by a node holds exactly the value that node's device produced for this
/// time step from the bus contents visible to the node when it ran. The
/// value is untouched by the nodes that run later, because every slot is
/// owned by exactly one output channel. (Unit-typed slots admit a single
/// value, so the sample bus is where this law has content.)
pub proof fn lemma_tick_slot_values<US: Device<(), Sample>, SS: Device<Sample, Sample>, SU: Device<
    Sample,
    (),
>>(
    nodes: Seq<NodeWrapper<US, SS, SU>>,
    audio0: Seq<Sample>,
    unit0: Seq<()>,
    t: Time,
    j: int,
    k: int,
)
    requires
        wf_nodes(nodes, audio0.len(), unit0.len()),
        0 <= j < nodes.len(),
        nodes[j].writes_audio(),
        0 <= k < nodes[j].outputs_view().len(),
    ensures
        ({
            let pre = run_nodes(nodes, audio0, unit0, t, j);
            run_nodes(nodes, audio0, unit0, t, nodes.len() as int).1[nodes[j].outputs_view()[k] as int]
                == audio_frame(nodes[j], pre.1, pre.2, t)[k]
        }),
{
    let pre = run_nodes(nodes, audio0, unit0, t, j);
    lemma_run_nodes_len(nodes, audio0, unit0, t, j);
    lemma_run_nodes_len(nodes, audio0, unit0, t, j + 1);
    assert(wf_node(nodes[j], audio0.len(), unit0.len()));
    let slots = nodes[j].outputs_view();
    let frame = audio_frame(nodes[j], pre.1, pre.2, t);
    let s = slots[k];
    assert forall|x: int, y: int|
        0 <= x < slots.len() && 0 <= y < slots.len() && x != y implies slots[x] != slots[y] by {
        assert(outputs_disjoint(nodes));
        assert(nodes[j].outputs_view()[x] != nodes[j].outputs_view()[y]);
    }
    match nodes[j] {
        NodeWrapper::UnitToSample(n) => {
            n.device.tick_spec_wf(t, gather(pre.2, n.inputs@));
            lemma_scatter_index(pre.1, n.outputs@, frame, k);
        },
        NodeWrapper::SampleToSample(n) => {
            n.device.tick_spec_wf(t, gather(pre.1, n.inputs@));
            lemma_scatter_index(pre.1, n.outputs@, frame, k);
        },
        NodeWrapper::SampleToUnit(_) => {},
    }
    assert(run_nodes(nodes, audio0, unit0, t, j + 1).1[s as int] == frame[k]);
    assert forall|j2: int, k2: int|
        j + 1 <= j2 < nodes.len() && 0 <= k2 < nodes[j2].outputs_view().len()
            && nodes[j2].writes_audio() implies (#[trigger] nodes[j2].outputs_view()[k2]) as int
        != s as int by {
        assert(outputs_disjoint(nodes));
        assert(nodes[j2].outputs_view()[k2] != nodes[j].outputs_view()[k]);
    }
    lemma_run_untouched_audio(nodes, audio0, unit0, t, j + 1, nodes.len() as int, s as int);
}

/// Law: in a well-formed graph every owned output slot lies strictly below
/// the length of the bus it belongs to, so the slots a fresh registration
/// hands out, which lie at or above that length, were owned by no node
/// registered before it.
pub proof fn lemma_registered_slots_fresh<US: Device<(), Sample>, SS: Device<Sample, Sample>, SU: Device<
    Sample,
    (),
>>(
    nodes: Seq<NodeWrapper<US, SS, SU>>,
    audio_len: nat,
    unit_len: nat,
    w: NodeWrapper<US, SS, SU>,
)
    requires
        wf_nodes(nodes, audio_len, unit_len),
        forall|x: int|
            0 <= x < w.outputs_view().len() ==> (#[trigger] w.outputs_view()[x]) >= (
            if w.writes_audio() {
                audio_len
            } else {
                unit_len
            }),
    ensures
        forall|j: int, k1: int, k2: int|
            0 <= j < nodes.len() && 0 <= k1 < nodes[j].outputs_view().len() && 0 <= k2
                < w.outputs_view().len() && nodes[j].writes_audio() == w.writes_audio()
                ==> (#[trigger] nodes[j].outputs_view()[k1]) != (#[trigger] w.outputs_view()[k2]),
{
    assert forall|j: int, k1: int, k2: int|
        0 <= j < nodes.len() && 0 <= k1 < nodes[j].outputs_view().len() && 0 <= k2
            < w.outputs_view().len() && nodes[j].writes_audio() == w.writes_audio() implies (
    #[trigger] nodes[j].outputs_view()[k1]) != (#[trigger] w.outputs_view()[k2]) by {
        assert(wf_node(nodes[j], audio_len, unit_len));
    }
}

/// Law: a destination with a fixed input arity of `m` never holds more than
/// `m` wired inputs, so edge creation into it can succeed at most `m` times
/// over the graph's whole life.
pub proof fn lemma_input_count_bounded<US: Device<(), Sample>, SS: Device<Sample, Sample>, SU: Device<
    Sample,
    (),
>>(g: crate::DeviceGraph<US, SS, SU>, j: int)
    requires
        g.wf(),
        0 <= j < g.devices@.len(),
    ensures
        g.devices@[j].input_arity() matches DeviceIOType::Exactly(m)
            ==> g.devices@[j].inputs_view().len() <= m,
{
    assert(wf_node(g.devices@[j], g.bus.audio_bus@.len(), g.bus.unit_bus@.len()));
}

} // verus!
