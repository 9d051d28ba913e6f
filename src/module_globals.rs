use vstd::prelude::*;

verus! {

/// A global added to a module by one of the passes: an exported, mutable
/// 64-bit cell with its initial value.
#[derive(Debug, Clone, Copy, PartialEq, Eq)]
pub struct GlobalCell {
    pub name: &'static str,
    pub initial_value: i64,
}

/// The global-declaration table of a module under transformation: the number
/// of globals the module declares itself, then the cells added by the passes.
/// The cell at position `i` of `cells` has global index `declared + i`.
#[derive(Debug, Clone)]
pub struct ModuleGlobals {
    pub declared: u32,
    pub cells: Vec<GlobalCell>,
}

impl ModuleGlobals {
    pub fn new(declared: u32) -> (r: ModuleGlobals)
        ensures
            r.declared == declared,
            r.cells@.len() == 0,
    {
        ModuleGlobals { declared, cells: Vec::new() }
    }

    /// The index the next created global receives.
    pub open spec fn next_index(self) -> int {
        self.declared + self.cells@.len()
    }

    /// Room for `n` more globals with indices that fit in `u32`.
    pub open spec fn has_room(self, n: int) -> bool {
        self.next_index() + n <= u32::MAX
    }

    pub fn global_count(&self) -> (r: u64)
        requires
            self.has_room(0),
        ensures
            r == self.next_index(),
    {
        self.declared as u64 + self.cells.len() as u64
    }
}

/// Adds an exported mutable global with the given name and initial value, and
/// returns its index.
pub fn create_global_index(module_info: &mut ModuleGlobals, name: &'static str, init: i64) -> (r: u32)
    requires
        old(module_info).has_room(1),
    ensures
        r == old(module_info).next_index(),
        final(module_info).declared == old(module_info).declared,
        final(module_info).cells@ == old(module_info).cells@.push(
            GlobalCell { name, initial_value: init },
        ),
{
    let index = module_info.global_count();
    module_info.cells.push(GlobalCell { name, initial_value: init });
    index as u32
}

} // verus!
