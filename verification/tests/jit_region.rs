use std::collections::HashSet;
use otoriscv::cpu::rv32::jit::v2::cfg::{find_sccs, CfgGraph};
use otoriscv::cpu::rv32::jit::v2::state::JitState;
use otoriscv::cpu::rv32::jit::v2::types::{BranchCondition, Page};

fn regs_10_20_10() -> [u32; 32] {
    let mut r = [0u32; 32];
    r[1] = 10;
    r[2] = 20;
    r[3] = 10;
    r
}

fn chain_graph() -> CfgGraph {
    let mut graph = CfgGraph::new();
    graph.insert(1, [2].into_iter().collect());
    graph.insert(2, [3].into_iter().collect());
    graph.insert(3, HashSet::new());
    graph
}

fn cycle_graph() -> CfgGraph {
    let mut graph = CfgGraph::new();
    graph.insert(1, [2].into_iter().collect());
    graph.insert(2, [3].into_iter().collect());
    graph.insert(3, [1].into_iter().collect());
    graph
}

#[test]
fn bb_jit_v2_test_page_operations() {
    let page = Page::of(0x8000_1234);
    assert_eq!(page.base_addr(), 0x8000_1000);
    assert!(page.contains(0x8000_1000));
    assert!(page.contains(0x8000_1FFF));
    assert!(!page.contains(0x8000_2000));
}

#[test]
fn bb_jit_v2_test_branch_condition() {
    let regs = regs_10_20_10();
    let eq = BranchCondition::Eq { rs1: 1, rs2: 3 };
    assert!(eq.evaluate(&regs));
    let ne = BranchCondition::Ne { rs1: 1, rs2: 2 };
    assert!(ne.evaluate(&regs));
    let lt = BranchCondition::Lt { rs1: 1, rs2: 2 };
    assert!(lt.evaluate(&regs));
}

#[test]
fn bb_jit_v2_test_scc_simple() {
    let graph = chain_graph();
    let sccs = find_sccs(&graph);
    assert_eq!(sccs.len(), 3);
}

#[test]
fn bb_jit_v2_test_scc_loop() {
    let graph = cycle_graph();
    let sccs = find_sccs(&graph);
    assert_eq!(sccs.len(), 1);
    assert_eq!(sccs[0].len(), 3);
}

#[test]
fn bb_jit_v2_test_jit_state_hotness() {
    let mut jit = JitState::new();
    jit.set_threshold(1000);
    for _ in 0..9 {
        assert!(jit.record_execution(0x8000_0000, 100).is_none());
    }
    assert!(jit.record_execution(0x8000_0000, 100).is_some());
}

#[test]
fn cfg_test_scc_simple() {
    let graph = chain_graph();
    let sccs = find_sccs(&graph);
    assert_eq!(sccs.len(), 3);
}

#[test]
fn cfg_test_scc_loop() {
    let graph = cycle_graph();
    let sccs = find_sccs(&graph);
    assert_eq!(sccs.len(), 1);
    assert_eq!(sccs[0].len(), 3);
}

#[test]
fn state_test_jit_state_hotness() {
    let mut jit = JitState::new();
    jit.set_threshold(1000);
    for _ in 0..9 {
        assert!(jit.record_execution(0x8000_0000, 100).is_none());
    }
    assert!(jit.record_execution(0x8000_0000, 100).is_some());
}

#[test]
fn types_test_page_operations() {
    let page = Page::of(0x8000_1234);
    assert_eq!(page.base_addr(), 0x8000_1000);
    assert!(page.contains(0x8000_1000));
    assert!(page.contains(0x8000_1FFF));
    assert!(!page.contains(0x8000_2000));
}

#[test]
fn types_test_branch_condition() {
    let regs = regs_10_20_10();
    let eq = BranchCondition::Eq { rs1: 1, rs2: 3 };
    assert!(eq.evaluate(&regs));
    let ne = BranchCondition::Ne { rs1: 1, rs2: 2 };
    assert!(ne.evaluate(&regs));
    let lt = BranchCondition::Lt { rs1: 1, rs2: 2 };
    assert!(lt.evaluate(&regs));
}

#[test]
fn scc_order_is_leaves_first() {
    let graph = chain_graph();
    let sccs = find_sccs(&graph);
    assert_eq!(sccs, vec![vec![3], vec![2], vec![1]]);
}

#[test]
fn scc_loop_then_exit_puts_the_exit_first() {
    let mut graph = CfgGraph::new();
    graph.insert(1, [2].into_iter().collect());
    graph.insert(2, [1, 3].into_iter().collect());
    graph.insert(3, HashSet::new());
    let sccs = find_sccs(&graph);
    assert_eq!(sccs.len(), 2);
    assert_eq!(sccs[0], vec![3]);
    let mut looped = sccs[1].clone();
    looped.sort();
    assert_eq!(looped, vec![1, 2]);
}
