use vstd::prelude::*;

verus! {

/// One instruction of a function body, holding what the passes read and write.
///
/// Instructions the passes neither inject nor inspect are carried as `Other`,
/// with an opcode number that selects their entry in the cost table.
#[derive(Debug, Clone, Copy, PartialEq, Eq, Structural)]
pub enum Instr {
    Unreachable,
    Block,
    Loop,
    /// An `if`; the ones the passes inject have the empty block type.
    If,
    Else,
    End,
    Br { relative_depth: u32 },
    BrIf { relative_depth: u32 },
    BrTable,
    Return,
    Call { function_index: u32 },
    CallIndirect,
    GlobalGet { global_index: u32 },
    GlobalSet { global_index: u32 },
    I64Const { value: i64 },
    I64Add,
    I64Ne,
    I64GeU,
    Other { opcode: u32 },
}

/// Number of cost-table entries taken by the named instruction kinds;
/// `Other { opcode }` is priced by entry `NAMED_KINDS + opcode`.
pub const NAMED_KINDS: u64 = 18;

impl Instr {
    /// The cost-table entry that prices this instruction.
    pub open spec fn kind(self) -> nat {
        match self {
            Instr::Unreachable => 0,
            Instr::Block => 1,
            Instr::Loop => 2,
            Instr::If => 3,
            Instr::Else => 4,
            Instr::End => 5,
            Instr::Br { .. } => 6,
            Instr::BrIf { .. } => 7,
            Instr::BrTable => 8,
            Instr::Return => 9,
            Instr::Call { .. } => 10,
            Instr::CallIndirect => 11,
            Instr::GlobalGet { .. } => 12,
            Instr::GlobalSet { .. } => 13,
            Instr::I64Const { .. } => 14,
            Instr::I64Add => 15,
            Instr::I64Ne => 16,
            Instr::I64GeU => 17,
            Instr::Other { opcode } => (NAMED_KINDS + opcode) as nat,
        }
    }

    pub fn cost_kind(&self) -> (r: u64)
        ensures
            r == self.kind(),
    {
        match *self {
            Instr::Unreachable => 0,
            Instr::Block => 1,
            Instr::Loop => 2,
            Instr::If => 3,
            Instr::Else => 4,
            Instr::End => 5,
            Instr::Br { .. } => 6,
            Instr::BrIf { .. } => 7,
            Instr::BrTable => 8,
            Instr::Return => 9,
            Instr::Call { .. } => 10,
            Instr::CallIndirect => 11,
            Instr::GlobalGet { .. } => 12,
            Instr::GlobalSet { .. } => 13,
            Instr::I64Const { .. } => 14,
            Instr::I64Add => 15,
            Instr::I64Ne => 16,
            Instr::I64GeU => 17,
            Instr::Other { opcode } => NAMED_KINDS + opcode as u64,
        }
    }

    /// Points where control may leave or re-enter a straight-line segment.
    pub open spec fn is_join(self) -> bool {
        match self {
            Instr::Loop | Instr::End | Instr::Else | Instr::Br { .. } | Instr::BrTable
            | Instr::BrIf { .. } | Instr::Call { .. } | Instr::CallIndirect | Instr::Return => true,
            _ => false,
        }
    }

    pub fn is_control_join(&self) -> (r: bool)
        ensures
            r == self.is_join(),
    {
        match *self {
            Instr::Loop | Instr::End | Instr::Else | Instr::Br { .. } | Instr::BrTable
            | Instr::BrIf { .. } | Instr::Call { .. } | Instr::CallIndirect | Instr::Return => true,
            _ => false,
        }
    }

    /// A direct or indirect call.
    pub open spec fn is_call(self) -> bool {
        match self {
            Instr::Call { .. } | Instr::CallIndirect => true,
            _ => false,
        }
    }

    pub fn is_call_site(&self) -> (r: bool)
        ensures
            r == self.is_call(),
    {
        match *self {
            Instr::Call { .. } | Instr::CallIndirect => true,
            _ => false,
        }
    }

    /// Whether this instruction writes the given global.
    pub open spec fn writes_global(self, global_index: u32) -> bool {
        self == (Instr::GlobalSet { global_index })
    }
}

/// The cost of each instruction kind, indexed by `Instr::kind`.
#[derive(Debug, Clone)]
pub struct OpcodeCost {
    pub costs: Vec<u32>,
}

impl OpcodeCost {
    pub fn new(costs: Vec<u32>) -> (r: OpcodeCost)
        ensures
            r.costs@ == costs@,
    {
        OpcodeCost { costs }
    }

    /// The cost of an instruction; `None` where the table has no entry for its kind.
    pub open spec fn cost(self, op: Instr) -> Option<nat> {
        if op.kind() < self.costs@.len() {
            Some(self.costs@[op.kind() as int] as nat)
        } else {
            None
        }
    }

    pub fn cost_of(&self, op: &Instr) -> (r: Option<u32>)
        ensures
            r.is_some() == self.cost(*op).is_some(),
            r.is_some() ==> r.unwrap() as nat == self.cost(*op).unwrap(),
    {
        let kind = op.cost_kind();
        if kind < self.costs.len() as u64 {
            Some(self.costs[kind as usize])
        } else {
            None
        }
    }
}

} // verus!
