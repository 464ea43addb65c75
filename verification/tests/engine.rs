//! Tests of the scheduler and aggregation engine: interval grouping, slot
//! updates, the joined status line, the aggregator's stop-on-failure
//! policy, and the fixed-delay schedule.

use rstatusbar::components::cpu::Cpu;
use rstatusbar::components::disk::Disk;
use rstatusbar::components::memory::Memory;
use rstatusbar::components::script::RunOutput;
use rstatusbar::components::script::Script;
use rstatusbar::device::Device;
use rstatusbar::device::Sample;
use rstatusbar::device::SourceError;
use rstatusbar::statusbar::apply_outcome;
use rstatusbar::statusbar::execute;
use rstatusbar::statusbar::new_slots;
use rstatusbar::statusbar::pass_starts;
use rstatusbar::statusbar::render_status;
use rstatusbar::statusbar::Aggregator;

fn three_sources() -> Vec<Device> {
    let cpu = Cpu { time: Some(1000), name: None, icon: None };
    let memory = Memory { time: Some(1000), name: None, icon: None };
    let disk = Disk { time: Some(2000), name: None, icon: None, unit: None };
    vec![Device::Cpu(cpu), Device::Memory(memory), Device::Disk(disk)]
}

fn slots_of(values: &[&str]) -> Vec<String> {
    values.iter().map(|v| String::from(*v)).collect()
}

#[test]
fn grouping_one_worker_per_distinct_interval() {
    let groups = execute(&three_sources());

    assert_eq!(groups.len(), 2);
    assert_eq!(groups[0].time, 1000);
    assert_eq!(groups[0].members, vec![0, 1]);
    assert_eq!(groups[1].time, 2000);
    assert_eq!(groups[1].members, vec![2]);
}

#[test]
fn grouping_keeps_configuration_order_within_a_group() {
    let devices = vec![
        Device::Cpu(Cpu { time: Some(500), name: None, icon: None }),
        Device::Disk(Disk { time: Some(2000), name: None, icon: None, unit: None }),
        Device::Memory(Memory { time: Some(500), name: None, icon: None }),
    ];
    let groups = execute(&devices);

    assert_eq!(groups.len(), 2);
    assert_eq!(groups[0].time, 500);
    assert_eq!(groups[0].members, vec![0, 2]);
    assert_eq!(groups[1].members, vec![1]);
}

#[test]
fn grouping_of_empty_configuration() {
    let groups = execute(&Vec::new());
    assert!(groups.is_empty());
}

#[test]
fn three_records() {
    // Three sources with intervals 1000, 1000 and 2000 milliseconds: two
    // workers; with the third slot still empty, the joined line holds the
    // first two values and no placeholder for the third.
    let devices = three_sources();
    let groups = execute(&devices);
    assert_eq!(groups.len(), 2);
    assert_eq!(groups[0].members.len(), 2);
    assert_eq!(groups[1].members.len(), 1);

    let slots = slots_of(&[" CPU 42% ", " RAM 66% ", ""]);
    let aggregator = Aggregator::new();
    let line = aggregator.tick(&slots, "|").unwrap();
    assert_eq!(line, " CPU 42% | RAM 66% ");
}

#[test]
fn stale_value_kept_on_failure() {
    let mut slot = String::from(" CPU 42% ");
    apply_outcome(&mut slot, Err(SourceError::Unavailable));
    assert_eq!(slot, " CPU 42% ");

    let memory = Memory { time: None, name: None, icon: None };
    let device = Device::Memory(memory);
    apply_outcome(&mut slot, device.get(Sample::Memory(None)));
    assert_eq!(slot, " CPU 42% ");

    // a script run that exits with failure also leaves the slot stale
    let script = Device::Script(Script::default());
    let run = RunOutput { success: false, stdout: String::from("partial") };
    apply_outcome(&mut slot, script.get(Sample::Script(Some(run))));
    assert_eq!(slot, " CPU 42% ");
}

#[test]
fn successful_sample_replaces_slot() {
    let mut slot = String::from("stale");
    let memory = Memory { time: None, name: Some(String::from("RAM")), icon: Some(String::from("M")) };
    let device = Device::Memory(memory);
    let contents = String::from("MemTotal: 100 kB\nMemFree: 50 kB\n");
    apply_outcome(&mut slot, device.get(Sample::Memory(Some(contents))));
    assert_eq!(slot, " M RAM 50% ");
}

#[test]
fn empty_slot_adds_no_text_and_no_separator() {
    assert_eq!(render_status(&slots_of(&["a", "", "b"]), "|"), "a|b");
    assert_eq!(render_status(&slots_of(&["", "x", ""]), "|"), "x");
    assert_eq!(render_status(&slots_of(&["", "", ""]), "|"), "");
}

#[test]
fn joined_line_keeps_slot_order() {
    assert_eq!(render_status(&slots_of(&["b", "a", "c"]), "|"), "b|a|c");
}

#[test]
fn join_with_longer_separator() {
    assert_eq!(render_status(&slots_of(&[" a ", " b "]), " | "), " a  |  b ");
}

#[test]
fn fresh_slots_are_empty() {
    let slots = new_slots(3);
    assert_eq!(slots.len(), 3);
    assert!(slots.iter().all(|s| s.is_empty()));
    assert_eq!(render_status(&slots, "|"), "");
}

#[test]
fn aggregator_emits_nothing_for_empty_slots() {
    let aggregator = Aggregator::new();
    assert!(aggregator.tick(&new_slots(2), "|").is_none());
}

#[test]
fn failed_delivery_stops_the_aggregator() {
    // A sink failure is fatal: after it, the aggregator never emits again,
    // so the sink is never invoked again.
    let slots = slots_of(&["up"]);
    let mut aggregator = Aggregator::new();
    let mut deliveries: usize = 0;

    let first = aggregator.tick(&slots, "|");
    assert_eq!(first, Some(String::from("up")));
    deliveries += 1;
    aggregator.record_delivery(false);

    for _ in 0..3 {
        if aggregator.tick(&slots, "|").is_some() {
            deliveries += 1;
        }
    }
    assert_eq!(deliveries, 1);
    assert!(!aggregator.active);
}

#[test]
fn successful_delivery_keeps_the_aggregator_running() {
    let slots = slots_of(&["up"]);
    let mut aggregator = Aggregator::new();
    assert!(aggregator.tick(&slots, "|").is_some());
    aggregator.record_delivery(true);
    assert!(aggregator.tick(&slots, "|").is_some());
}

#[test]
fn fixed_delay_stretches_the_period() {
    // Passes of 50 and 200 milliseconds under a 1000 millisecond interval:
    // each start lies a full interval plus the pass duration after the last.
    let starts = pass_starts(&vec![50, 200], 1000).unwrap();
    assert_eq!(starts, vec![0, 1050, 2250]);
    assert!(starts[1] - starts[0] >= 1000 + 50);
    assert!(starts[2] - starts[1] >= 1000 + 200);
}

#[test]
fn device_time_dispatches_to_the_source() {
    for device in three_sources() {
        assert!(device.time() == 1000 || device.time() == 2000);
    }
    let defaulted = Device::Disk(Disk { time: None, name: None, icon: None, unit: None });
    assert_eq!(defaulted.time(), 2000);
}
