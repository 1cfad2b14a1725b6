use otoriscv::cpu::rv64::debug::{ExecutionTracker, InterruptTracker};

#[test]
fn execution_tracker_counts_distinct_pcs_in_window() {
    let mut t = ExecutionTracker::new();
    for i in 0..150u64 {
        t.track_pc(0x1000 + (i % 7) * 4);
    }
    assert_eq!(t.get_instruction_count(), 150);
    assert_eq!(t.get_unique_pc_count(), 7);
}

#[test]
fn execution_tracker_window_forgets_old_pcs() {
    let mut t = ExecutionTracker::new();
    t.track_pc(0xdead);
    for _ in 0..100 {
        t.track_pc(0x2000);
    }
    assert_eq!(t.get_unique_pc_count(), 1);
}

#[test]
fn execution_tracker_progress_every_ten_thousand() {
    let mut t = ExecutionTracker::new();
    for _ in 0..9999 {
        t.track_pc(4);
    }
    assert!(!t.should_print_status());
    t.track_pc(4);
    assert!(t.should_print_status());
    assert!(!t.should_print_status());
}

#[test]
fn interrupt_tracker_stats() {
    let mut t = InterruptTracker::new();
    for _ in 0..5 {
        t.on_instruction();
    }
    t.on_timer_interrupt();
    for _ in 0..3 {
        t.on_instruction();
    }
    t.on_external_interrupt();
    assert_eq!(t.get_stats(), (1, 1, 3));
}
