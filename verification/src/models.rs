//! The cost of one instruction, as resolved from an annotation or a table.

use vstd::prelude::*;
use crate::text::{contains, holds, to_chars};

verus! {

/// What a `CycleCount` holds, as plain values.
pub struct Cost {
    /// The cost components, in table order.
    pub cycles: Seq<usize>,
    /// The canonical key under which the components were found.
    pub lookup: Seq<char>,
    /// The number of registers named by the register lists of the instruction.
    pub reg_count: usize,
}

impl Cost {
    /// The first component, or 0 where there is none.
    pub open spec fn base(self) -> int {
        if self.cycles.len() > 0 {
            self.cycles[0] as int
        } else {
            0
        }
    }

    /// The second component, or 0 where there is none.
    pub open spec fn second(self) -> int {
        if self.cycles.len() > 1 {
            self.cycles[1] as int
        } else {
            0
        }
    }

    /// Whether the key denotes a register-list form.
    pub open spec fn is_register_list(self) -> bool {
        contains(self.lookup, "reglist"@)
    }

    /// The cost used for accounting: the base cost, and for a register-list
    /// form that names more than one register the per-register cost times the
    /// number of registers on top of it.
    pub open spec fn effective(self) -> int {
        if self.reg_count > 1 && self.is_register_list() {
            self.base() + self.second() * self.reg_count
        } else {
            self.base()
        }
    }

    /// The cost of a branch taken `iterations` times in a row: not taken once,
    /// taken every other time.
    pub open spec fn total_taken(self, iterations: int) -> int {
        if iterations <= 1 {
            self.base()
        } else {
            (iterations - 1) * self.second() + self.base()
        }
    }
}

/// The cycle cost of one instruction: its cost components, the canonical key
/// under which they were found, and the number of registers its operand names.
#[derive(Debug)]
pub struct CycleCount {
    cycles: Vec<usize>,
    lookup: String,
    reg_count: usize,
}

impl View for CycleCount {
    type V = Cost;

    closed spec fn view(&self) -> Cost {
        Cost { cycles: self.cycles@, lookup: self.lookup@, reg_count: self.reg_count }
    }
}

impl Clone for CycleCount {
    fn clone(&self) -> (r: Self)
        ensures
            r@ == self@,
    {
        CycleCount {
            cycles: copy_of(&self.cycles),
            lookup: self.lookup.clone(),
            reg_count: self.reg_count,
        }
    }
}

/// A copy of a list of numbers.
pub fn copy_of(v: &Vec<usize>) -> (r: Vec<usize>)
    ensures
        r@ == v@,
{
    let mut out: Vec<usize> = Vec::new();
    let mut i: usize = 0;
    while i < v.len()
        invariant
            i <= v.len(),
            out@ == v@.subrange(0, i as int),
        decreases v.len() - i,
    {
        out.push(v[i]);
        i += 1;
        assert(v@.subrange(0, i as int) == v@.subrange(0, i - 1).push(v@[i - 1]));
    }
    assert(v@.subrange(0, v@.len() as int) == v@);
    out
}

impl CycleCount {
    /// A cost with the given components, key and register count.
    pub fn new(cycles: Vec<usize>, lookup: String, reg_count: usize) -> (r: Self)
        ensures
            r@ == (Cost { cycles: cycles@, lookup: lookup@, reg_count }),
    {
        CycleCount { cycles, lookup, reg_count }
    }

    /// The first component: the fixed cost, or the cost of a branch not taken.
    pub fn base(&self) -> (r: usize)
        ensures
            r == self@.base(),
    {
        if self.cycles.len() > 0 {
            self.cycles[0]
        } else {
            0
        }
    }

    /// The second component of a register-list form: the cost per register.
    pub fn cycles_per_reg(&self) -> (r: usize)
        ensures
            r == self@.second(),
    {
        if self.cycles.len() > 1 {
            self.cycles[1]
        } else {
            0
        }
    }

    /// The number of registers named by the register lists of the instruction.
    pub fn get_reg_count(&self) -> (r: usize)
        ensures
            r == self@.reg_count,
    {
        self.reg_count
    }

    /// The canonical key under which the components were found.
    pub fn get_lookup(&self) -> (r: String)
        ensures
            r@ == self@.lookup,
    {
        self.lookup.clone()
    }

    /// The cost components, in table order.
    pub fn get_cycles(&self) -> (r: Vec<usize>)
        ensures
            r@ == self@.cycles,
    {
        copy_of(&self.cycles)
    }

    /// The second component of a branch: its cost when taken.
    pub fn extra_if_taken(&self) -> (r: usize)
        ensures
            r == self@.second(),
    {
        if self.cycles.len() > 1 {
            self.cycles[1]
        } else {
            0
        }
    }

    /// The cost of a branch taken `iterations` times in a row.
    pub fn _total_taken(&self, iterations: usize) -> (r: usize)
        requires
            self@.total_taken(iterations as int) <= usize::MAX,
        ensures
            r == self@.total_taken(iterations as int),
    {
        if iterations <= 1 {
            self.base()
        } else {
            let extra = self.extra_if_taken();
            assert((iterations - 1) * extra <= usize::MAX) by (nonlinear_arith)
                requires
                    (iterations - 1) * extra + self@.base() <= usize::MAX,
                    self@.base() >= 0,
            ;
            (iterations - 1) * extra + self.base()
        }
    }

    /// Whether the key denotes a register-list form.
    pub fn is_register_list(&self) -> (r: bool)
        ensures
            r == self@.is_register_list(),
    {
        holds(&to_chars(self.lookup.as_str()), "reglist")
    }

    /// The cost used for accounting. It is computed in 128 bits, which hold
    /// every value that two machine words can multiply and add up to.
    pub fn effective(&self) -> (r: u128)
        ensures
            r == self@.effective(),
    {
        let base = self.base() as u128;
        if self.reg_count > 1 && self.is_register_list() {
            let per = self.cycles_per_reg() as u128;
            let n = self.reg_count as u128;
            assert(per * n <= 0xffff_ffff_ffff_ffff * 0xffff_ffff_ffff_ffff) by (nonlinear_arith)
                requires
                    0 <= per <= 0xffff_ffff_ffff_ffff,
                    0 <= n <= 0xffff_ffff_ffff_ffff,
            ;
            base + per * n
        } else {
            base
        }
    }
}

} // verus!
