use chip8::emulator::{Emulator, HISTORY_CAPACITY};

#[test]
fn emulator_starts_paused_with_fresh_machine() {
    let emulator = Emulator::init().unwrap();
    assert!(emulator.paused);
    assert_eq!(emulator.state.program_counter, 0x200);
    assert_eq!(emulator.history.len(), 0);
}

#[test]
fn save_and_restore_round_trip() {
    let mut emulator = Emulator::init().unwrap();
    emulator.state.registers[1] = 7;
    emulator.state.memory[0x300] = 9;
    emulator.save_state();
    // Mutate further, then restore the snapshot.
    emulator.state.registers[1] = 0;
    emulator.state.memory[0x300] = 0;
    emulator.state.program_counter = 0x400;
    emulator.restore_state();
    assert_eq!(emulator.state.registers[1], 7);
    assert_eq!(emulator.state.memory[0x300], 9);
    assert_eq!(emulator.state.program_counter, 0x200);
    // The snapshot is still there: restoring again works.
    emulator.state.registers[1] = 0;
    emulator.restore_state();
    assert_eq!(emulator.state.registers[1], 7);
}

#[test]
fn restore_without_snapshot_changes_nothing() {
    let mut emulator = Emulator::init().unwrap();
    emulator.state.registers[2] = 5;
    emulator.restore_state();
    assert_eq!(emulator.state.registers[2], 5);
    assert_eq!(emulator.history.len(), 0);
}

#[test]
fn history_keeps_most_recent_snapshots() {
    let mut emulator = Emulator::init().unwrap();
    // One more save than the capacity, each tagged by the cycle counter.
    for mark in 0..(HISTORY_CAPACITY as u64 + 1) {
        emulator.state.cycle = mark + 1;
        emulator.save_state();
    }
    assert_eq!(emulator.history.len(), HISTORY_CAPACITY);
    // The oldest snapshot (mark 1) was evicted; the next oldest remains.
    emulator.restore_state_at(0);
    assert_eq!(emulator.state.cycle, 2);
    // The most recent snapshot is the last save.
    emulator.restore_state();
    assert_eq!(emulator.state.cycle, HISTORY_CAPACITY as u64 + 1);
}

#[test]
fn restore_at_out_of_range_changes_nothing() {
    let mut emulator = Emulator::init().unwrap();
    emulator.state.cycle = 3;
    emulator.save_state();
    emulator.state.cycle = 9;
    emulator.restore_state_at(5);
    assert_eq!(emulator.state.cycle, 9);
    emulator.restore_state_at(0);
    assert_eq!(emulator.state.cycle, 3);
}
