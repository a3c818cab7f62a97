//! End-to-end tests driving the graph through its public interface.

use device_graph::devices::{AnyOutSource, Identity, Mixer, Sink, TimeSource};
use device_graph::{AddDevice, DeviceGraph};

#[test]
fn empty_graph_ticks() {
    let mut g: DeviceGraph<TimeSource, Identity, Sink> = DeviceGraph::new();
    g.tick();
    g.tick();
}

#[test]
fn registration_allocates_fresh_slots() {
    let mut g: DeviceGraph<TimeSource, Identity, Sink> = DeviceGraph::new();
    let a = g.add(TimeSource { base: 10 }).unwrap();
    let b = g.add(TimeSource { base: 20 }).unwrap();
    assert_eq!(a.0, 0);
    assert_eq!(b.0, 1);
    g.tick();
    // Each node wrote its own slot: neither value clobbered the other.
    assert_eq!(g.sample_output(&a, 0), Some(10));
    assert_eq!(g.sample_output(&b, 0), Some(20));
}

#[test]
fn any_output_registration_fails() {
    let mut g: DeviceGraph<AnyOutSource, Identity, Sink> = DeviceGraph::new();
    let r = g.add(AnyOutSource);
    assert_eq!(r.err(), Some("DeviceGraph does not support Any outputs"));
}

#[test]
fn edge_needs_existing_source_channel() {
    let mut g: DeviceGraph<TimeSource, Identity, Sink> = DeviceGraph::new();
    let a = g.add(TimeSource { base: 5 }).unwrap();
    let b = g.add(Identity).unwrap();
    // The source declares exactly one output, so channel 1 does not exist.
    assert_eq!(g.add_edge(a, 1, b, 0), Err("not enough channels"));
    // The failed request left the destination unwired: it still reads the
    // default value, not the source.
    g.tick();
    assert_eq!(g.sample_output(&b, 0), Some(0));
    // Channel 0 exists and the destination still has room.
    assert_eq!(g.add_edge(a, 0, b, 0), Ok(()));
    g.tick();
    assert_eq!(g.sample_output(&b, 0), Some(6));
}

#[test]
fn fixed_input_arity_bounds_cumulative_edges() {
    let mut g: DeviceGraph<TimeSource, Mixer, Sink> = DeviceGraph::new();
    let a = g.add(TimeSource { base: 3 }).unwrap();
    let m = g.add(Mixer).unwrap();
    // The mixer accepts exactly two inputs, cumulatively.
    assert_eq!(g.add_edge(a, 0, m, 0), Ok(()));
    assert_eq!(g.add_edge(a, 0, m, 1), Ok(()));
    assert_eq!(g.add_edge(a, 0, m, 0), Err("not enough channels"));
    // The third request left the wiring unchanged: the mixer still sums the
    // two wired inputs only.
    g.tick();
    assert_eq!(g.sample_output(&m, 0), Some(6));
}

#[test]
fn any_input_arity_always_accepts() {
    let mut g: DeviceGraph<TimeSource, Identity, Sink> = DeviceGraph::new();
    let a = g.add(TimeSource { base: 1 }).unwrap();
    let s = g.add(Sink).unwrap();
    // The sink accepts any number of edges, whatever channel is asked for.
    assert_eq!(g.add_edge(a, 0, s, 0), Ok(()));
    assert_eq!(g.add_edge(a, 0, s, 99), Ok(()));
    assert_eq!(g.add_edge(a, 0, s, 7), Ok(()));
    g.tick();
    // The sink's output is unit-typed, so it has no sample output to read.
    assert_eq!(g.sample_output(&s, 0), None);
}

#[test]
fn tick_propagates_within_one_step_in_registration_order() {
    let mut g: DeviceGraph<TimeSource, Identity, Sink> = DeviceGraph::new();
    let a = g.add(TimeSource { base: 7 }).unwrap();
    let b = g.add(Identity).unwrap();
    g.add_edge(a, 0, b, 0).unwrap();
    g.tick();
    // B runs after A within the tick, so it sees A's value for time 0.
    assert_eq!(g.sample_output(&a, 0), Some(7));
    assert_eq!(g.sample_output(&b, 0), Some(7));
    g.tick();
    assert_eq!(g.sample_output(&a, 0), Some(8));
    assert_eq!(g.sample_output(&b, 0), Some(8));
}

#[test]
fn reversed_registration_order_reads_previous_tick() {
    let mut g: DeviceGraph<TimeSource, Identity, Sink> = DeviceGraph::new();
    let b = g.add(Identity).unwrap();
    let a = g.add(TimeSource { base: 7 }).unwrap();
    g.add_edge(a, 0, b, 0).unwrap();
    g.tick();
    // B ran before A, so it saw the slot's default value, not A's output.
    assert_eq!(g.sample_output(&a, 0), Some(7));
    assert_eq!(g.sample_output(&b, 0), Some(0));
    g.tick();
    // One tick later B reflects A's previous value.
    assert_eq!(g.sample_output(&a, 0), Some(8));
    assert_eq!(g.sample_output(&b, 0), Some(7));
}

#[test]
fn sample_output_rejects_missing_channels() {
    let mut g: DeviceGraph<TimeSource, Identity, Sink> = DeviceGraph::new();
    let a = g.add(TimeSource { base: 2 }).unwrap();
    assert_eq!(g.sample_output(&a, 1), None);
    g.tick();
    assert_eq!(g.sample_output(&a, 0), Some(2));
    assert_eq!(g.sample_output(&a, 1), None);
}

#[test]
fn untouched_slots_keep_their_values() {
    let mut g: DeviceGraph<TimeSource, Mixer, Sink> = DeviceGraph::new();
    let a = g.add(TimeSource { base: 4 }).unwrap();
    g.tick();
    assert_eq!(g.sample_output(&a, 0), Some(4));
    // Registering and wiring more devices later does not disturb A's slot.
    let m = g.add(Mixer).unwrap();
    g.add_edge(a, 0, m, 0).unwrap();
    assert_eq!(g.sample_output(&a, 0), Some(4));
}

#[test]
fn fan_out_shares_one_slot() {
    let mut g: DeviceGraph<TimeSource, Mixer, Sink> = DeviceGraph::new();
    let a = g.add(TimeSource { base: 9 }).unwrap();
    let m = g.add(Mixer).unwrap();
    // The same source channel feeds both mixer inputs: reads do not consume.
    g.add_edge(a, 0, m, 0).unwrap();
    g.add_edge(a, 0, m, 1).unwrap();
    g.tick();
    assert_eq!(g.sample_output(&m, 0), Some(18));
}
