//! The three open-collector lines.

use c64research::iec;
use c64research::iec::{Bus, Line, CONTROLLER, MAX_DEVICES};

#[test]
fn idle_bus_floats_high() {
    let bus = Bus::new();
    assert!(bus.atn() && bus.clk() && bus.data());
    assert!(bus.released(Line::Clk));
    assert!(!bus.pulled_low(Line::Clk));
}

/// The defining property: one device pulling is enough to take the line low,
/// and it stays low until *everyone* lets go.
#[test]
fn any_device_pulling_takes_the_line_low() {
    let mut bus = Bus::new();
    bus.pull(CONTROLLER, Line::Data, true);
    bus.pull(2, Line::Data, true);
    assert!(bus.pulled_low(Line::Data));

    // The controller lets go: device 2 is still holding it down.
    bus.pull(CONTROLLER, Line::Data, false);
    assert!(bus.pulled_low(Line::Data), "device 2 still pulls DATA low");

    // Now everyone has let go.
    bus.pull(2, Line::Data, false);
    assert!(bus.released(Line::Data));
}

#[test]
fn lines_are_independent() {
    let mut bus = Bus::new();
    bus.pull(CONTROLLER, Line::Atn, true);
    assert!(bus.pulled_low(Line::Atn));
    assert!(bus.clk() && bus.data(), "ATN must not disturb CLK or DATA");
}

#[test]
fn set_pulls_replaces_the_whole_opinion() {
    let mut bus = Bus::new();
    bus.set_pulls(1, iec::line::CLK | iec::line::DATA);
    assert!(bus.pulled_low(Line::Clk) && bus.pulled_low(Line::Data));

    // Writing a new mask drops CLK and keeps DATA: no leftover state.
    bus.set_pulls(1, iec::line::DATA);
    assert!(bus.released(Line::Clk));
    assert!(bus.pulled_low(Line::Data));
    assert_eq!(bus.pulls_of(1), iec::line::DATA);
}

#[test]
fn release_all_drops_only_that_device() {
    let mut bus = Bus::new();
    bus.set_pulls(CONTROLLER, iec::line::ALL);
    bus.set_pulls(1, iec::line::CLK);
    bus.release_all(CONTROLLER);
    assert!(bus.atn() && bus.data(), "controller let go of ATN and DATA");
    assert!(bus.pulled_low(Line::Clk), "device 1 still holds CLK");
}

/// A memory-mapped register write must never panic, however wrong the slot.
#[test]
fn out_of_range_slots_are_ignored() {
    let mut bus = Bus::new();
    bus.set_pulls(MAX_DEVICES, iec::line::ALL);
    bus.pull(99, Line::Atn, true);
    assert_eq!(bus.pulled_mask(), 0);
    assert_eq!(bus.pulls_of(99), 0);
}
