//! Execution tracking for finding hangs: a window of recent program
//! counters with their frequencies, and interrupt counters.

use vstd::prelude::*;
use std::collections::{HashMap, VecDeque};

verus! {

broadcast use vstd::std_specs::hash::group_hash_axioms;

/// The number of recent program counters kept.
pub const PC_HISTORY_SIZE: usize = 100;

/// Instructions between progress reports.
pub const PROGRESS_INTERVAL: u64 = 10000;

/// Tracks recent program counters.
pub struct ExecutionTracker {
    pc_history: VecDeque<u64>,
    pc_frequency: HashMap<u64, usize>,
    instruction_count: u64,
    last_progress_count: u64,
}

impl ExecutionTracker {
    /// The recent program counters, oldest first.
    pub closed spec fn history(&self) -> Seq<u64> {
        self.pc_history@
    }

    /// How often each program counter occurs in the window.
    pub closed spec fn frequency(&self) -> Map<u64, usize> {
        self.pc_frequency@
    }

    /// Instructions tracked.
    pub closed spec fn count(&self) -> u64 {
        self.instruction_count
    }

    /// The instruction count at the last progress report.
    pub closed spec fn last_progress(&self) -> u64 {
        self.last_progress_count
    }

    /// The window holds at most 100 entries, the frequency map has exactly
    /// the program counters of the window, each with its number of
    /// occurrences, and the last report is not ahead of the count.
    pub closed spec fn wf(&self) -> bool {
        &&& self.pc_history@.len() <= PC_HISTORY_SIZE
        &&& forall|pc: u64| #[trigger] self.pc_frequency@.contains_key(pc) <==> self.pc_history@.to_multiset().count(pc) > 0
        &&& forall|pc: u64| #[trigger] self.pc_frequency@.contains_key(pc)
            ==> self.pc_frequency@[pc] == self.pc_history@.to_multiset().count(pc)
        &&& self.last_progress_count <= self.instruction_count
    }

    pub fn new() -> (t: ExecutionTracker)
        ensures
            t.wf(),
            t.history() == Seq::<u64>::empty(),
            t.count() == 0,
            t.last_progress() == 0,
    {
        let t = ExecutionTracker {
            pc_history: VecDeque::with_capacity(PC_HISTORY_SIZE),
            pc_frequency: HashMap::new(),
            instruction_count: 0,
            last_progress_count: 0,
        };
        proof {
            broadcast use vstd::seq_lib::group_to_multiset_ensures;
            assert(t.pc_history@ =~= Seq::<u64>::empty());
            assert forall|pc: u64| t.pc_history@.to_multiset().count(pc) == 0 by {
                assert(!t.pc_history@.contains(pc));
            }
        }
        t
    }

    /// Record an executed program counter: it enters the window, the
    /// oldest entry leaves once the window is full, and the frequencies follow.
    pub fn track_pc(&mut self, pc: u64)
        requires
            old(self).wf(),
            old(self).count() < u64::MAX,
        ensures
            final(self).wf(),
            final(self).history() == (if old(self).history().len() >= PC_HISTORY_SIZE {
                old(self).history().drop_first() } else { old(self).history() }).push(pc),
            final(self).count() == old(self).count() + 1,
            final(self).last_progress() == old(self).last_progress(),
    {
        broadcast use vstd::seq_lib::group_to_multiset_ensures;
        broadcast use vstd::multiset::group_multiset_axioms;
        broadcast use vstd::multiset::group_multiset_properties;
        let ghost h0 = self.pc_history@;
        let ghost m1 = h0.push(pc).to_multiset();
        self.instruction_count = self.instruction_count + 1;
        let c: usize = match self.pc_frequency.get(&pc) {
            Some(n) => *n,
            None => 0,
        };
        assert(h0.to_multiset().count(pc) <= h0.to_multiset().len());
        self.pc_frequency.insert(pc, c + 1);
        assert(m1 =~= h0.to_multiset().insert(pc));
        assert forall|x: u64| #[trigger] self.pc_frequency@.contains_key(x) <==> m1.count(x) > 0 by {}
        assert forall|x: u64| #[trigger] self.pc_frequency@.contains_key(x) ==> self.pc_frequency@[x] == m1.count(x) by {}
        if self.pc_history.len() >= PC_HISTORY_SIZE {
            match self.pc_history.pop_front() {
                Some(old_pc) => {
                    let ghost m2 = m1.remove(old_pc);
                    assert(h0.drop_first().push(pc) =~= h0.push(pc).remove(0));
                    assert(h0.push(pc)[0] == old_pc);
                    assert(m1.count(old_pc) > 0);
                    let n: usize = match self.pc_frequency.get(&old_pc) {
                        Some(k) => *k,
                        None => 0,
                    };
                    if n > 0 {
                        if n - 1 == 0 {
                            self.pc_frequency.remove(&old_pc);
                        } else {
                            self.pc_frequency.insert(old_pc, n - 1);
                        }
                    }
                    assert forall|x: u64| #[trigger] self.pc_frequency@.contains_key(x) <==> m2.count(x) > 0 by {}
                    assert forall|x: u64| #[trigger] self.pc_frequency@.contains_key(x) ==> self.pc_frequency@[x] == m2.count(x) by {}
                },
                None => {},
            }
        }
        self.pc_history.push_back(pc);
    }

    /// Is a progress report due (every 10000 instructions)? Records the report.
    pub fn should_print_status(&mut self) -> (r: bool)
        requires
            old(self).wf(),
        ensures
            final(self).wf(),
            r == (old(self).count() - old(self).last_progress() >= PROGRESS_INTERVAL),
            final(self).last_progress() == (if r { old(self).count() } else { old(self).last_progress() }),
            final(self).count() == old(self).count(),
            final(self).history() == old(self).history(),
    {
        if self.instruction_count - self.last_progress_count >= PROGRESS_INTERVAL {
            self.last_progress_count = self.instruction_count;
            true
        } else {
            false
        }
    }

    pub fn get_instruction_count(&self) -> (r: u64)
        ensures
            r == self.count(),
    {
        self.instruction_count
    }

    /// The number of distinct program counters in the window.
    pub fn get_unique_pc_count(&self) -> (r: usize)
        requires
            self.wf(),
        ensures
            r == self.history().to_set().len(),
    {
        proof {
            broadcast use vstd::seq_lib::group_to_multiset_ensures;
            assert forall|x: u64| self.pc_frequency@.dom().contains(x) <==> self.pc_history@.to_set().contains(x) by {
                assert(self.pc_history@.to_set().contains(x) <==> self.pc_history@.contains(x));
            }
            assert(self.pc_frequency@.dom() =~= self.pc_history@.to_set());
        }
        self.pc_frequency.len()
    }
}

/// Counts interrupts and the instructions since the last timer interrupt.
pub struct InterruptTracker {
    last_timer_interrupt: u64,
    timer_interrupt_count: u64,
    external_interrupt_count: u64,
    instruction_count: u64,
}

impl InterruptTracker {
    /// (timer interrupts, external interrupts, instructions, instruction count at the last timer interrupt).
    pub closed spec fn state(&self) -> (u64, u64, u64, u64) {
        (self.timer_interrupt_count, self.external_interrupt_count, self.instruction_count, self.last_timer_interrupt)
    }

    /// The last timer interrupt is not ahead of the instruction count.
    pub closed spec fn wf(&self) -> bool {
        self.last_timer_interrupt <= self.instruction_count
    }

    pub fn new() -> (t: InterruptTracker)
        ensures
            t.wf(),
            t.state() == (0u64, 0u64, 0u64, 0u64),
    {
        InterruptTracker { last_timer_interrupt: 0, timer_interrupt_count: 0, external_interrupt_count: 0, instruction_count: 0 }
    }

    /// Count an executed instruction.
    pub fn on_instruction(&mut self)
        requires
            old(self).wf(),
            old(self).state().2 < u64::MAX,
        ensures
            final(self).wf(),
            final(self).state() == (old(self).state().0, old(self).state().1, (old(self).state().2 + 1) as u64, old(self).state().3),
    {
        self.instruction_count = self.instruction_count + 1;
    }

    /// Count a timer interrupt, taken at the current instruction.
    pub fn on_timer_interrupt(&mut self)
        requires
            old(self).wf(),
            old(self).state().0 < u64::MAX,
        ensures
            final(self).wf(),
            final(self).state() == ((old(self).state().0 + 1) as u64, old(self).state().1, old(self).state().2, old(self).state().2),
    {
        self.timer_interrupt_count = self.timer_interrupt_count + 1;
        self.last_timer_interrupt = self.instruction_count;
    }

    /// Count an external interrupt.
    pub fn on_external_interrupt(&mut self)
        requires
            old(self).wf(),
            old(self).state().1 < u64::MAX,
        ensures
            final(self).wf(),
            final(self).state() == (old(self).state().0, (old(self).state().1 + 1) as u64, old(self).state().2, old(self).state().3),
    {
        self.external_interrupt_count = self.external_interrupt_count + 1;
    }

    /// (timer interrupts, external interrupts, instructions since the last timer interrupt).
    pub fn get_stats(&self) -> (r: (u64, u64, u64))
        requires
            self.wf(),
        ensures
            r == (self.state().0, self.state().1, (self.state().2 - self.state().3) as u64),
    {
        (self.timer_interrupt_count, self.external_interrupt_count, self.instruction_count - self.last_timer_interrupt)
    }
}

} // verus!
