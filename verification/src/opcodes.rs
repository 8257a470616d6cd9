//! SourcePawn instruction encoding: one signed tag cell followed by a
//! fixed, opcode-specific number of operand cells, unknown tags being a
//! decode error.  The cells themselves travel in the container's byte
//! order; see [`crate::vm_types`].

use vstd::prelude::*;
use crate::vm_types::Cell;

verus! {

/// Structure for an error that has occurred while decoding an
/// instruction from a cell stream.
#[derive(Debug, Clone, Copy, PartialEq, Eq, Structural)]
pub enum OpcodeError {
    /// The cells ended before the tag or an operand could be read.
    Truncated,
    /// The tag cell names no known instruction.
    UnknownTag(Cell),
}

/// Enumeration of every possible SourcePawn instruction.
#[derive(Debug, Clone, Copy, PartialEq, Eq, Structural)]
pub enum Instruction {
    NoOp,
    LoadPri {
        offset: Cell,
    },
    LoadAlt {
        offset: Cell,
    },
    LoadSPri {
        offset: Cell,
    },
    LoadSAlt {
        offset: Cell,
    },
    LrefSPri {
        offset: Cell,
    },
    LrefSAlt {
        offset: Cell,
    },
    LoadI,
    LodbI {
        width: Cell,
    },
    ConstPri {
        value: Cell,
    },
    ConstAlt {
        value: Cell,
    },
    AddrPri {
        offset: Cell,
    },
    AddrAlt {
        offset: Cell,
    },
    StorPri {
        offset: Cell,
    },
    StorAlt {
        offset: Cell,
    },
    StorSPri {
        offset: Cell,
    },
    StorSAlt {
        offset: Cell,
    },
    SrefSPri {
        offset: Cell,
    },
    SrefSAlt {
        offset: Cell,
    },
    StorI,
    StrbI {
        width: Cell,
    },
    Lidx,
    Idxaddr,
    MovePri,
    MoveAlt,
    Xchg,
    PushPri,
    PushAlt,
    PushC {
        const_1: Cell,
    },
    Push {
        addr_1: Cell,
    },
    PushS {
        stack_1: Cell,
    },
    PopPri,
    PopAlt,
    Stack {
        const_1: Cell,
    },
    Heap {
        const_1: Cell,
    },
    Proc,
    Retn,
    Call {
        func_1: Cell,
    },
    Jump {
        jump_1: Cell,
    },
    Jzer {
        jump_1: Cell,
    },
    Jnz {
        jump_1: Cell,
    },
    Jeq {
        jump_1: Cell,
    },
    Jneq {
        jump_1: Cell,
    },
    Jsless {
        jump_1: Cell,
    },
    Jsleq {
        jump_1: Cell,
    },
    Jsgrtr {
        jump_1: Cell,
    },
    Jsgeq {
        jump_1: Cell,
    },
    Shl,
    Shr,
    Sshr,
    ShlCPri {
        const_1: Cell,
    },
    ShlCAlt {
        const_1: Cell,
    },
    Smul,
    Sdiv,
    SdivAlt,
    Add,
    Sub,
    SubAlt,
    And,
    Or,
    Xor,
    Not,
    Neg,
    Invert,
    AddC {
        const_1: Cell,
    },
    SmulC {
        const_1: Cell,
    },
    ZeroPri,
    ZeroAlt,
    Zero {
        addr_1: Cell,
    },
    ZeroS {
        stack_1: Cell,
    },
    Eq,
    Neq,
    Sless,
    Sleq,
    Sgrtr,
    Sgeq,
    EqCPri {
        const_1: Cell,
    },
    EqCAlt {
        const_1: Cell,
    },
    IncPri,
    IncAlt,
    Inc {
        addr_1: Cell,
    },
    IncS {
        stack_1: Cell,
    },
    IncI,
    DecPri,
    DecAlt,
    Dec {
        addr_1: Cell,
    },
    DecS {
        stack_1: Cell,
    },
    DecI,
    Movs {
        const_1: Cell,
    },
    Fill {
        const_1: Cell,
    },
    Halt {
        const_1: Cell,
    },
    Bounds {
        const_1: Cell,
    },
    SysreqC {
        native_1: Cell,
    },
    Switch {
        jump_1: Cell,
    },
    Casetbl {
        const_1: Cell,
        jump_1: Cell,
    },
    SwapPri,
    SwapAlt,
    PushAdr {
        stack_1: Cell,
    },
    Nop,
    SysreqN {
        native: Cell,
        n_args: Cell,
    },
    Break,
    Push2C {
        const_1: Cell,
        const_2: Cell,
    },
    Push2 {
        addr_1: Cell,
        addr_2: Cell,
    },
    Push2S {
        stack_1: Cell,
        stack_2: Cell,
    },
    Push2Adr {
        stack_1: Cell,
        stack_2: Cell,
    },
    Push3C {
        const_1: Cell,
        const_2: Cell,
        const_3: Cell,
    },
    Push3 {
        addr_1: Cell,
        addr_2: Cell,
        addr_3: Cell,
    },
    Push3S {
        stack_1: Cell,
        stack_2: Cell,
        stack_3: Cell,
    },
    Push3Adr {
        stack_1: Cell,
        stack_2: Cell,
        stack_3: Cell,
    },
    Push4C {
        const_1: Cell,
        const_2: Cell,
        const_3: Cell,
        const_4: Cell,
    },
    Push4 {
        addr_1: Cell,
        addr_2: Cell,
        addr_3: Cell,
        addr_4: Cell,
    },
    Push4S {
        stack_1: Cell,
        stack_2: Cell,
        stack_3: Cell,
        stack_4: Cell,
    },
    Push4Adr {
        stack_1: Cell,
        stack_2: Cell,
        stack_3: Cell,
        stack_4: Cell,
    },
    Push5C {
        const_1: Cell,
        const_2: Cell,
        const_3: Cell,
        const_4: Cell,
        const_5: Cell,
    },
    Push5 {
        addr_1: Cell,
        addr_2: Cell,
        addr_3: Cell,
        addr_4: Cell,
        addr_5: Cell,
    },
    Push5S {
        stack_1: Cell,
        stack_2: Cell,
        stack_3: Cell,
        stack_4: Cell,
        stack_5: Cell,
    },
    Push5Adr {
        stack_1: Cell,
        stack_2: Cell,
        stack_3: Cell,
        stack_4: Cell,
        stack_5: Cell,
    },
    LoadBoth {
        addr_1: Cell,
        addr_2: Cell,
    },
    LoadSBoth {
        stack_1: Cell,
        stack_2: Cell,
    },
    Const {
        addr_1: Cell,
        const_1: Cell,
    },
    ConstS {
        stack_1: Cell,
        const_1: Cell,
    },
    TrackerPushC {
        const_1: Cell,
    },
    TrackerPopSetheap,
    Genarray {
        const_1: Cell,
    },
    GenarrayZ {
        const_1: Cell,
    },
    StradjustPri,
    Endproc,
    InitarrayPri {
        addr_1: Cell,
        const_1: Cell,
        const_2: Cell,
        const_3: Cell,
        const_4: Cell,
    },
    InitarrayAlt {
        addr_1: Cell,
        const_1: Cell,
        const_2: Cell,
        const_3: Cell,
        const_4: Cell,
    },
    HeapSave,
    HeapRestore,
    Fabs,
    Float,
    Floatadd,
    Floatsub,
    Floatmul,
    Floatdiv,
    RndToNearest,
    RndToFloor,
    RndToCeil,
    RndToZero,
    Floatcmp,
    FloatGt,
    FloatGe,
    FloatLt,
    FloatLe,
    FloatNe,
    FloatEq,
    FloatNot,
}

impl Instruction {
    /// The cells this instruction encodes to: its tag, then its
    /// operands.
    pub open spec fn encoding(self) -> Seq<i32> {
        match self {
            Instruction::NoOp => seq![0i32],
            Instruction::LoadPri { offset } => seq![1i32, offset],
            Instruction::LoadAlt { offset } => seq![2i32, offset],
            Instruction::LoadSPri { offset } => seq![3i32, offset],
            Instruction::LoadSAlt { offset } => seq![4i32, offset],
            Instruction::LrefSPri { offset } => seq![7i32, offset],
            Instruction::LrefSAlt { offset } => seq![8i32, offset],
            Instruction::LoadI => seq![9i32],
            Instruction::LodbI { width } => seq![10i32, width],
            Instruction::ConstPri { value } => seq![11i32, value],
            Instruction::ConstAlt { value } => seq![12i32, value],
            Instruction::AddrPri { offset } => seq![13i32, offset],
            Instruction::AddrAlt { offset } => seq![14i32, offset],
            Instruction::StorPri { offset } => seq![15i32, offset],
            Instruction::StorAlt { offset } => seq![16i32, offset],
            Instruction::StorSPri { offset } => seq![17i32, offset],
            Instruction::StorSAlt { offset } => seq![18i32, offset],
            Instruction::SrefSPri { offset } => seq![21i32, offset],
            Instruction::SrefSAlt { offset } => seq![22i32, offset],
            Instruction::StorI => seq![23i32],
            Instruction::StrbI { width } => seq![24i32, width],
            Instruction::Lidx => seq![25i32],
            Instruction::Idxaddr => seq![27i32],
            Instruction::MovePri => seq![33i32],
            Instruction::MoveAlt => seq![34i32],
            Instruction::Xchg => seq![35i32],
            Instruction::PushPri => seq![36i32],
            Instruction::PushAlt => seq![37i32],
            Instruction::PushC { const_1 } => seq![39i32, const_1],
            Instruction::Push { addr_1 } => seq![40i32, addr_1],
            Instruction::PushS { stack_1 } => seq![41i32, stack_1],
            Instruction::PopPri => seq![42i32],
            Instruction::PopAlt => seq![43i32],
            Instruction::Stack { const_1 } => seq![44i32, const_1],
            Instruction::Heap { const_1 } => seq![45i32, const_1],
            Instruction::Proc => seq![46i32],
            Instruction::Retn => seq![48i32],
            Instruction::Call { func_1 } => seq![49i32, func_1],
            Instruction::Jump { jump_1 } => seq![51i32, jump_1],
            Instruction::Jzer { jump_1 } => seq![53i32, jump_1],
            Instruction::Jnz { jump_1 } => seq![54i32, jump_1],
            Instruction::Jeq { jump_1 } => seq![55i32, jump_1],
            Instruction::Jneq { jump_1 } => seq![56i32, jump_1],
            Instruction::Jsless { jump_1 } => seq![61i32, jump_1],
            Instruction::Jsleq { jump_1 } => seq![62i32, jump_1],
            Instruction::Jsgrtr { jump_1 } => seq![63i32, jump_1],
            Instruction::Jsgeq { jump_1 } => seq![64i32, jump_1],
            Instruction::Shl => seq![65i32],
            Instruction::Shr => seq![66i32],
            Instruction::Sshr => seq![67i32],
            Instruction::ShlCPri { const_1 } => seq![68i32, const_1],
            Instruction::ShlCAlt { const_1 } => seq![69i32, const_1],
            Instruction::Smul => seq![72i32],
            Instruction::Sdiv => seq![73i32],
            Instruction::SdivAlt => seq![74i32],
            Instruction::Add => seq![78i32],
            Instruction::Sub => seq![79i32],
            Instruction::SubAlt => seq![80i32],
            Instruction::And => seq![81i32],
            Instruction::Or => seq![82i32],
            Instruction::Xor => seq![83i32],
            Instruction::Not => seq![84i32],
            Instruction::Neg => seq![85i32],
            Instruction::Invert => seq![86i32],
            Instruction::AddC { const_1 } => seq![87i32, const_1],
            Instruction::SmulC { const_1 } => seq![88i32, const_1],
            Instruction::ZeroPri => seq![89i32],
            Instruction::ZeroAlt => seq![90i32],
            Instruction::Zero { addr_1 } => seq![91i32, addr_1],
            Instruction::ZeroS { stack_1 } => seq![92i32, stack_1],
            Instruction::Eq => seq![95i32],
            Instruction::Neq => seq![96i32],
            Instruction::Sless => seq![101i32],
            Instruction::Sleq => seq![102i32],
            Instruction::Sgrtr => seq![103i32],
            Instruction::Sgeq => seq![104i32],
            Instruction::EqCPri { const_1 } => seq![105i32, const_1],
            Instruction::EqCAlt { const_1 } => seq![106i32, const_1],
            Instruction::IncPri => seq![107i32],
            Instruction::IncAlt => seq![108i32],
            Instruction::Inc { addr_1 } => seq![109i32, addr_1],
            Instruction::IncS { stack_1 } => seq![110i32, stack_1],
            Instruction::IncI => seq![111i32],
            Instruction::DecPri => seq![112i32],
            Instruction::DecAlt => seq![113i32],
            Instruction::Dec { addr_1 } => seq![114i32, addr_1],
            Instruction::DecS { stack_1 } => seq![115i32, stack_1],
            Instruction::DecI => seq![116i32],
            Instruction::Movs { const_1 } => seq![117i32, const_1],
            Instruction::Fill { const_1 } => seq![119i32, const_1],
            Instruction::Halt { const_1 } => seq![120i32, const_1],
            Instruction::Bounds { const_1 } => seq![121i32, const_1],
            Instruction::SysreqC { native_1 } => seq![123i32, native_1],
            Instruction::Switch { jump_1 } => seq![129i32, jump_1],
            Instruction::Casetbl { const_1, jump_1 } => seq![130i32, const_1, jump_1],
            Instruction::SwapPri => seq![131i32],
            Instruction::SwapAlt => seq![132i32],
            Instruction::PushAdr { stack_1 } => seq![133i32, stack_1],
            Instruction::Nop => seq![134i32],
            Instruction::SysreqN { native, n_args } => seq![135i32, native, n_args],
            Instruction::Break => seq![137i32],
            Instruction::Push2C { const_1, const_2 } => seq![138i32, const_1, const_2],
            Instruction::Push2 { addr_1, addr_2 } => seq![139i32, addr_1, addr_2],
            Instruction::Push2S { stack_1, stack_2 } => seq![140i32, stack_1, stack_2],
            Instruction::Push2Adr { stack_1, stack_2 } => seq![141i32, stack_1, stack_2],
            Instruction::Push3C { const_1, const_2, const_3 } => seq![142i32, const_1, const_2, const_3],
            Instruction::Push3 { addr_1, addr_2, addr_3 } => seq![143i32, addr_1, addr_2, addr_3],
            Instruction::Push3S { stack_1, stack_2, stack_3 } => seq![144i32, stack_1, stack_2, stack_3],
            Instruction::Push3Adr { stack_1, stack_2, stack_3 } => seq![145i32, stack_1, stack_2, stack_3],
            Instruction::Push4C { const_1, const_2, const_3, const_4 } => seq![146i32, const_1, const_2, const_3, const_4],
            Instruction::Push4 { addr_1, addr_2, addr_3, addr_4 } => seq![147i32, addr_1, addr_2, addr_3, addr_4],
            Instruction::Push4S { stack_1, stack_2, stack_3, stack_4 } => seq![148i32, stack_1, stack_2, stack_3, stack_4],
            Instruction::Push4Adr { stack_1, stack_2, stack_3, stack_4 } => seq![149i32, stack_1, stack_2, stack_3, stack_4],
            Instruction::Push5C { const_1, const_2, const_3, const_4, const_5 } => seq![150i32, const_1, const_2, const_3, const_4, const_5],
            Instruction::Push5 { addr_1, addr_2, addr_3, addr_4, addr_5 } => seq![151i32, addr_1, addr_2, addr_3, addr_4, addr_5],
            Instruction::Push5S { stack_1, stack_2, stack_3, stack_4, stack_5 } => seq![152i32, stack_1, stack_2, stack_3, stack_4, stack_5],
            Instruction::Push5Adr { stack_1, stack_2, stack_3, stack_4, stack_5 } => seq![153i32, stack_1, stack_2, stack_3, stack_4, stack_5],
            Instruction::LoadBoth { addr_1, addr_2 } => seq![154i32, addr_1, addr_2],
            Instruction::LoadSBoth { stack_1, stack_2 } => seq![155i32, stack_1, stack_2],
            Instruction::Const { addr_1, const_1 } => seq![156i32, addr_1, const_1],
            Instruction::ConstS { stack_1, const_1 } => seq![157i32, stack_1, const_1],
            Instruction::TrackerPushC { const_1 } => seq![160i32, const_1],
            Instruction::TrackerPopSetheap => seq![161i32],
            Instruction::Genarray { const_1 } => seq![162i32, const_1],
            Instruction::GenarrayZ { const_1 } => seq![163i32, const_1],
            Instruction::StradjustPri => seq![164i32],
            Instruction::Endproc => seq![166i32],
            Instruction::InitarrayPri { addr_1, const_1, const_2, const_3, const_4 } => seq![169i32, addr_1, const_1, const_2, const_3, const_4],
            Instruction::InitarrayAlt { addr_1, const_1, const_2, const_3, const_4 } => seq![170i32, addr_1, const_1, const_2, const_3, const_4],
            Instruction::HeapSave => seq![171i32],
            Instruction::HeapRestore => seq![172i32],
            Instruction::Fabs => seq![174i32],
            Instruction::Float => seq![175i32],
            Instruction::Floatadd => seq![176i32],
            Instruction::Floatsub => seq![177i32],
            Instruction::Floatmul => seq![178i32],
            Instruction::Floatdiv => seq![179i32],
            Instruction::RndToNearest => seq![180i32],
            Instruction::RndToFloor => seq![181i32],
            Instruction::RndToCeil => seq![182i32],
            Instruction::RndToZero => seq![183i32],
            Instruction::Floatcmp => seq![184i32],
            Instruction::FloatGt => seq![185i32],
            Instruction::FloatGe => seq![186i32],
            Instruction::FloatLt => seq![187i32],
            Instruction::FloatLe => seq![188i32],
            Instruction::FloatNe => seq![189i32],
            Instruction::FloatEq => seq![190i32],
            Instruction::FloatNot => seq![191i32],
        }
    }

    /// Decoding the cells at `pos`: the instruction whose tag stands
    /// there with its operands, and the position after them, or the
    /// first decode error.
    pub open spec fn spec_read(cells: Seq<i32>, pos: int) -> Result<(Instruction, int), OpcodeError> {
        if pos < 0 || pos >= cells.len() {
            Err(OpcodeError::Truncated)
        } else {
            let tag = cells[pos];
            if tag == 0 {
                Ok((Instruction::NoOp, pos + 1))
            } else if tag == 1 {
                if pos + 2 <= cells.len() {
                    Ok((Instruction::LoadPri { offset: cells[pos + 1] }, pos + 2))
                } else {
                    Err(OpcodeError::Truncated)
                }
            } else if tag == 2 {
                if pos + 2 <= cells.len() {
                    Ok((Instruction::LoadAlt { offset: cells[pos + 1] }, pos + 2))
                } else {
                    Err(OpcodeError::Truncated)
                }
            } else if tag == 3 {
                if pos + 2 <= cells.len() {
                    Ok((Instruction::LoadSPri { offset: cells[pos + 1] }, pos + 2))
                } else {
                    Err(OpcodeError::Truncated)
                }
            } else if tag == 4 {
                if pos + 2 <= cells.len() {
                    Ok((Instruction::LoadSAlt { offset: cells[pos + 1] }, pos + 2))
                } else {
                    Err(OpcodeError::Truncated)
                }
            } else if tag == 7 {
                if pos + 2 <= cells.len() {
                    Ok((Instruction::LrefSPri { offset: cells[pos + 1] }, pos + 2))
                } else {
                    Err(OpcodeError::Truncated)
                }
            } else if tag == 8 {
                if pos + 2 <= cells.len() {
                    Ok((Instruction::LrefSAlt { offset: cells[pos + 1] }, pos + 2))
                } else {
                    Err(OpcodeError::Truncated)
                }
            } else if tag == 9 {
                Ok((Instruction::LoadI, pos + 1))
            } else if tag == 10 {
                if pos + 2 <= cells.len() {
                    Ok((Instruction::LodbI { width: cells[pos + 1] }, pos + 2))
                } else {
                    Err(OpcodeError::Truncated)
                }
            } else if tag == 11 {
                if pos + 2 <= cells.len() {
                    Ok((Instruction::ConstPri { value: cells[pos + 1] }, pos + 2))
                } else {
                    Err(OpcodeError::Truncated)
                }
            } else if tag == 12 {
                if pos + 2 <= cells.len() {
                    Ok((Instruction::ConstAlt { value: cells[pos + 1] }, pos + 2))
                } else {
                    Err(OpcodeError::Truncated)
                }
            } else if tag == 13 {
                if pos + 2 <= cells.len() {
                    Ok((Instruction::AddrPri { offset: cells[pos + 1] }, pos + 2))
                } else {
                    Err(OpcodeError::Truncated)
                }
            } else if tag == 14 {
                if pos + 2 <= cells.len() {
                    Ok((Instruction::AddrAlt { offset: cells[pos + 1] }, pos + 2))
                } else {
                    Err(OpcodeError::Truncated)
                }
            } else if tag == 15 {
                if pos + 2 <= cells.len() {
                    Ok((Instruction::StorPri { offset: cells[pos + 1] }, pos + 2))
                } else {
                    Err(OpcodeError::Truncated)
                }
            } else if tag == 16 {
                if pos + 2 <= cells.len() {
                    Ok((Instruction::StorAlt { offset: cells[pos + 1] }, pos + 2))
                } else {
                    Err(OpcodeError::Truncated)
                }
            } else if tag == 17 {
                if pos + 2 <= cells.len() {
                    Ok((Instruction::StorSPri { offset: cells[pos + 1] }, pos + 2))
                } else {
                    Err(OpcodeError::Truncated)
                }
            } else if tag == 18 {
                if pos + 2 <= cells.len() {
                    Ok((Instruction::StorSAlt { offset: cells[pos + 1] }, pos + 2))
                } else {
                    Err(OpcodeError::Truncated)
                }
            } else if tag == 21 {
                if pos + 2 <= cells.len() {
                    Ok((Instruction::SrefSPri { offset: cells[pos + 1] }, pos + 2))
                } else {
                    Err(OpcodeError::Truncated)
                }
            } else if tag == 22 {
                if pos + 2 <= cells.len() {
                    Ok((Instruction::SrefSAlt { offset: cells[pos + 1] }, pos + 2))
                } else {
                    Err(OpcodeError::Truncated)
                }
            } else if tag == 23 {
                Ok((Instruction::StorI, pos + 1))
            } else if tag == 24 {
                if pos + 2 <= cells.len() {
                    Ok((Instruction::StrbI { width: cells[pos + 1] }, pos + 2))
                } else {
                    Err(OpcodeError::Truncated)
                }
            } else if tag == 25 {
                Ok((Instruction::Lidx, pos + 1))
            } else if tag == 27 {
                Ok((Instruction::Idxaddr, pos + 1))
            } else if tag == 33 {
                Ok((Instruction::MovePri, pos + 1))
            } else if tag == 34 {
                Ok((Instruction::MoveAlt, pos + 1))
            } else if tag == 35 {
                Ok((Instruction::Xchg, pos + 1))
            } else if tag == 36 {
                Ok((Instruction::PushPri, pos + 1))
            } else if tag == 37 {
                Ok((Instruction::PushAlt, pos + 1))
            } else if tag == 39 {
                if pos + 2 <= cells.len() {
                    Ok((Instruction::PushC { const_1: cells[pos + 1] }, pos + 2))
                } else {
                    Err(OpcodeError::Truncated)
                }
            } else if tag == 40 {
                if pos + 2 <= cells.len() {
                    Ok((Instruction::Push { addr_1: cells[pos + 1] }, pos + 2))
                } else {
                    Err(OpcodeError::Truncated)
                }
            } else if tag == 41 {
                if pos + 2 <= cells.len() {
                    Ok((Instruction::PushS { stack_1: cells[pos + 1] }, pos + 2))
                } else {
                    Err(OpcodeError::Truncated)
                }
            } else if tag == 42 {
                Ok((Instruction::PopPri, pos + 1))
            } else if tag == 43 {
                Ok((Instruction::PopAlt, pos + 1))
            } else if tag == 44 {
                if pos + 2 <= cells.len() {
                    Ok((Instruction::Stack { const_1: cells[pos + 1] }, pos + 2))
                } else {
                    Err(OpcodeError::Truncated)
                }
            } else if tag == 45 {
                if pos + 2 <= cells.len() {
                    Ok((Instruction::Heap { const_1: cells[pos + 1] }, pos + 2))
                } else {
                    Err(OpcodeError::Truncated)
                }
            } else if tag == 46 {
                Ok((Instruction::Proc, pos + 1))
            } else if tag == 48 {
                Ok((Instruction::Retn, pos + 1))
            } else if tag == 49 {
                if pos + 2 <= cells.len() {
                    Ok((Instruction::Call { func_1: cells[pos + 1] }, pos + 2))
                } else {
                    Err(OpcodeError::Truncated)
                }
            } else if tag == 51 {
                if pos + 2 <= cells.len() {
                    Ok((Instruction::Jump { jump_1: cells[pos + 1] }, pos + 2))
                } else {
                    Err(OpcodeError::Truncated)
                }
            } else if tag == 53 {
                if pos + 2 <= cells.len() {
                    Ok((Instruction::Jzer { jump_1: cells[pos + 1] }, pos + 2))
                } else {
                    Err(OpcodeError::Truncated)
                }
            } else if tag == 54 {
                if pos + 2 <= cells.len() {
                    Ok((Instruction::Jnz { jump_1: cells[pos + 1] }, pos + 2))
                } else {
                    Err(OpcodeError::Truncated)
                }
            } else if tag == 55 {
                if pos + 2 <= cells.len() {
                    Ok((Instruction::Jeq { jump_1: cells[pos + 1] }, pos + 2))
                } else {
                    Err(OpcodeError::Truncated)
                }
            } else if tag == 56 {
                if pos + 2 <= cells.len() {
                    Ok((Instruction::Jneq { jump_1: cells[pos + 1] }, pos + 2))
                } else {
                    Err(OpcodeError::Truncated)
                }
            } else if tag == 61 {
                if pos + 2 <= cells.len() {
                    Ok((Instruction::Jsless { jump_1: cells[pos + 1] }, pos + 2))
                } else {
                    Err(OpcodeError::Truncated)
                }
            } else if tag == 62 {
                if pos + 2 <= cells.len() {
                    Ok((Instruction::Jsleq { jump_1: cells[pos + 1] }, pos + 2))
                } else {
                    Err(OpcodeError::Truncated)
                }
            } else if tag == 63 {
                if pos + 2 <= cells.len() {
                    Ok((Instruction::Jsgrtr { jump_1: cells[pos + 1] }, pos + 2))
                } else {
                    Err(OpcodeError::Truncated)
                }
            } else if tag == 64 {
                if pos + 2 <= cells.len() {
                    Ok((Instruction::Jsgeq { jump_1: cells[pos + 1] }, pos + 2))
                } else {
                    Err(OpcodeError::Truncated)
                }
            } else if tag == 65 {
                Ok((Instruction::Shl, pos + 1))
            } else if tag == 66 {
                Ok((Instruction::Shr, pos + 1))
            } else if tag == 67 {
                Ok((Instruction::Sshr, pos + 1))
            } else if tag == 68 {
                if pos + 2 <= cells.len() {
                    Ok((Instruction::ShlCPri { const_1: cells[pos + 1] }, pos + 2))
                } else {
                    Err(OpcodeError::Truncated)
                }
            } else if tag == 69 {
                if pos + 2 <= cells.len() {
                    Ok((Instruction::ShlCAlt { const_1: cells[pos + 1] }, pos + 2))
                } else {
                    Err(OpcodeError::Truncated)
                }
            } else if tag == 72 {
                Ok((Instruction::Smul, pos + 1))
            } else if tag == 73 {
                Ok((Instruction::Sdiv, pos + 1))
            } else if tag == 74 {
                Ok((Instruction::SdivAlt, pos + 1))
            } else if tag == 78 {
                Ok((Instruction::Add, pos + 1))
            } else if tag == 79 {
                Ok((Instruction::Sub, pos + 1))
            } else if tag == 80 {
                Ok((Instruction::SubAlt, pos + 1))
            } else if tag == 81 {
                Ok((Instruction::And, pos + 1))
            } else if tag == 82 {
                Ok((Instruction::Or, pos + 1))
            } else if tag == 83 {
                Ok((Instruction::Xor, pos + 1))
            } else if tag == 84 {
                Ok((Instruction::Not, pos + 1))
            } else if tag == 85 {
                Ok((Instruction::Neg, pos + 1))
            } else if tag == 86 {
                Ok((Instruction::Invert, pos + 1))
            } else if tag == 87 {
                if pos + 2 <= cells.len() {
                    Ok((Instruction::AddC { const_1: cells[pos + 1] }, pos + 2))
                } else {
                    Err(OpcodeError::Truncated)
                }
            } else if tag == 88 {
                if pos + 2 <= cells.len() {
                    Ok((Instruction::SmulC { const_1: cells[pos + 1] }, pos + 2))
                } else {
                    Err(OpcodeError::Truncated)
                }
            } else if tag == 89 {
                Ok((Instruction::ZeroPri, pos + 1))
            } else if tag == 90 {
                Ok((Instruction::ZeroAlt, pos + 1))
            } else if tag == 91 {
                if pos + 2 <= cells.len() {
                    Ok((Instruction::Zero { addr_1: cells[pos + 1] }, pos + 2))
                } else {
                    Err(OpcodeError::Truncated)
                }
            } else if tag == 92 {
                if pos + 2 <= cells.len() {
                    Ok((Instruction::ZeroS { stack_1: cells[pos + 1] }, pos + 2))
                } else {
                    Err(OpcodeError::Truncated)
                }
            } else if tag == 95 {
                Ok((Instruction::Eq, pos + 1))
            } else if tag == 96 {
                Ok((Instruction::Neq, pos + 1))
            } else if tag == 101 {
                Ok((Instruction::Sless, pos + 1))
            } else if tag == 102 {
                Ok((Instruction::Sleq, pos + 1))
            } else if tag == 103 {
                Ok((Instruction::Sgrtr, pos + 1))
            } else if tag == 104 {
                Ok((Instruction::Sgeq, pos + 1))
            } else if tag == 105 {
                if pos + 2 <= cells.len() {
                    Ok((Instruction::EqCPri { const_1: cells[pos + 1] }, pos + 2))
                } else {
                    Err(OpcodeError::Truncated)
                }
            } else if tag == 106 {
                if pos + 2 <= cells.len() {
                    Ok((Instruction::EqCAlt { const_1: cells[pos + 1] }, pos + 2))
                } else {
                    Err(OpcodeError::Truncated)
                }
            } else if tag == 107 {
                Ok((Instruction::IncPri, pos + 1))
            } else if tag == 108 {
                Ok((Instruction::IncAlt, pos + 1))
            } else if tag == 109 {
                if pos + 2 <= cells.len() {
                    Ok((Instruction::Inc { addr_1: cells[pos + 1] }, pos + 2))
                } else {
                    Err(OpcodeError::Truncated)
                }
            } else if tag == 110 {
                if pos + 2 <= cells.len() {
                    Ok((Instruction::IncS { stack_1: cells[pos + 1] }, pos + 2))
                } else {
                    Err(OpcodeError::Truncated)
                }
            } else if tag == 111 {
                Ok((Instruction::IncI, pos + 1))
            } else if tag == 112 {
                Ok((Instruction::DecPri, pos + 1))
            } else if tag == 113 {
                Ok((Instruction::DecAlt, pos + 1))
            } else if tag == 114 {
                if pos + 2 <= cells.len() {
                    Ok((Instruction::Dec { addr_1: cells[pos + 1] }, pos + 2))
                } else {
                    Err(OpcodeError::Truncated)
                }
            } else if tag == 115 {
                if pos + 2 <= cells.len() {
                    Ok((Instruction::DecS { stack_1: cells[pos + 1] }, pos + 2))
                } else {
                    Err(OpcodeError::Truncated)
                }
            } else if tag == 116 {
                Ok((Instruction::DecI, pos + 1))
            } else if tag == 117 {
                if pos + 2 <= cells.len() {
                    Ok((Instruction::Movs { const_1: cells[pos + 1] }, pos + 2))
                } else {
                    Err(OpcodeError::Truncated)
                }
            } else if tag == 119 {
                if pos + 2 <= cells.len() {
                    Ok((Instruction::Fill { const_1: cells[pos + 1] }, pos + 2))
                } else {
                    Err(OpcodeError::Truncated)
                }
            } else if tag == 120 {
                if pos + 2 <= cells.len() {
                    Ok((Instruction::Halt { const_1: cells[pos + 1] }, pos + 2))
                } else {
                    Err(OpcodeError::Truncated)
                }
            } else if tag == 121 {
                if pos + 2 <= cells.len() {
                    Ok((Instruction::Bounds { const_1: cells[pos + 1] }, pos + 2))
                } else {
                    Err(OpcodeError::Truncated)
                }
            } else if tag == 123 {
                if pos + 2 <= cells.len() {
                    Ok((Instruction::SysreqC { native_1: cells[pos + 1] }, pos + 2))
                } else {
                    Err(OpcodeError::Truncated)
                }
            } else if tag == 129 {
                if pos + 2 <= cells.len() {
                    Ok((Instruction::Switch { jump_1: cells[pos + 1] }, pos + 2))
                } else {
                    Err(OpcodeError::Truncated)
                }
            } else if tag == 130 {
                if pos + 3 <= cells.len() {
                    Ok((Instruction::Casetbl { const_1: cells[pos + 1], jump_1: cells[pos + 2] }, pos + 3))
                } else {
                    Err(OpcodeError::Truncated)
                }
            } else if tag == 131 {
                Ok((Instruction::SwapPri, pos + 1))
            } else if tag == 132 {
                Ok((Instruction::SwapAlt, pos + 1))
            } else if tag == 133 {
                if pos + 2 <= cells.len() {
                    Ok((Instruction::PushAdr { stack_1: cells[pos + 1] }, pos + 2))
                } else {
                    Err(OpcodeError::Truncated)
                }
            } else if tag == 134 {
                Ok((Instruction::Nop, pos + 1))
            } else if tag == 135 {
                if pos + 3 <= cells.len() {
                    Ok((Instruction::SysreqN { native: cells[pos + 1], n_args: cells[pos + 2] }, pos + 3))
                } else {
                    Err(OpcodeError::Truncated)
                }
            } else if tag == 137 {
                Ok((Instruction::Break, pos + 1))
            } else if tag == 138 {
                if pos + 3 <= cells.len() {
                    Ok((Instruction::Push2C { const_1: cells[pos + 1], const_2: cells[pos + 2] }, pos + 3))
                } else {
                    Err(OpcodeError::Truncated)
                }
            } else if tag == 139 {
                if pos + 3 <= cells.len() {
                    Ok((Instruction::Push2 { addr_1: cells[pos + 1], addr_2: cells[pos + 2] }, pos + 3))
                } else {
                    Err(OpcodeError::Truncated)
                }
            } else if tag == 140 {
                if pos + 3 <= cells.len() {
                    Ok((Instruction::Push2S { stack_1: cells[pos + 1], stack_2: cells[pos + 2] }, pos + 3))
                } else {
                    Err(OpcodeError::Truncated)
                }
            } else if tag == 141 {
                if pos + 3 <= cells.len() {
                    Ok((Instruction::Push2Adr { stack_1: cells[pos + 1], stack_2: cells[pos + 2] }, pos + 3))
                } else {
                    Err(OpcodeError::Truncated)
                }
            } else if tag == 142 {
                if pos + 4 <= cells.len() {
                    Ok((Instruction::Push3C { const_1: cells[pos + 1], const_2: cells[pos + 2], const_3: cells[pos + 3] }, pos + 4))
                } else {
                    Err(OpcodeError::Truncated)
                }
            } else if tag == 143 {
                if pos + 4 <= cells.len() {
                    Ok((Instruction::Push3 { addr_1: cells[pos + 1], addr_2: cells[pos + 2], addr_3: cells[pos + 3] }, pos + 4))
                } else {
                    Err(OpcodeError::Truncated)
                }
            } else if tag == 144 {
                if pos + 4 <= cells.len() {
                    Ok((Instruction::Push3S { stack_1: cells[pos + 1], stack_2: cells[pos + 2], stack_3: cells[pos + 3] }, pos + 4))
                } else {
                    Err(OpcodeError::Truncated)
                }
            } else if tag == 145 {
                if pos + 4 <= cells.len() {
                    Ok((Instruction::Push3Adr { stack_1: cells[pos + 1], stack_2: cells[pos + 2], stack_3: cells[pos + 3] }, pos + 4))
                } else {
                    Err(OpcodeError::Truncated)
                }
            } else if tag == 146 {
                if pos + 5 <= cells.len() {
                    Ok((Instruction::Push4C { const_1: cells[pos + 1], const_2: cells[pos + 2], const_3: cells[pos + 3], const_4: cells[pos + 4] }, pos + 5))
                } else {
                    Err(OpcodeError::Truncated)
                }
            } else if tag == 147 {
                if pos + 5 <= cells.len() {
                    Ok((Instruction::Push4 { addr_1: cells[pos + 1], addr_2: cells[pos + 2], addr_3: cells[pos + 3], addr_4: cells[pos + 4] }, pos + 5))
                } else {
                    Err(OpcodeError::Truncated)
                }
            } else if tag == 148 {
                if pos + 5 <= cells.len() {
                    Ok((Instruction::Push4S { stack_1: cells[pos + 1], stack_2: cells[pos + 2], stack_3: cells[pos + 3], stack_4: cells[pos + 4] }, pos + 5))
                } else {
                    Err(OpcodeError::Truncated)
                }
            } else if tag == 149 {
                if pos + 5 <= cells.len() {
                    Ok((Instruction::Push4Adr { stack_1: cells[pos + 1], stack_2: cells[pos + 2], stack_3: cells[pos + 3], stack_4: cells[pos + 4] }, pos + 5))
                } else {
                    Err(OpcodeError::Truncated)
                }
            } else if tag == 150 {
                if pos + 6 <= cells.len() {
                    Ok((Instruction::Push5C { const_1: cells[pos + 1], const_2: cells[pos + 2], const_3: cells[pos + 3], const_4: cells[pos + 4], const_5: cells[pos + 5] }, pos + 6))
                } else {
                    Err(OpcodeError::Truncated)
                }
            } else if tag == 151 {
                if pos + 6 <= cells.len() {
                    Ok((Instruction::Push5 { addr_1: cells[pos + 1], addr_2: cells[pos + 2], addr_3: cells[pos + 3], addr_4: cells[pos + 4], addr_5: cells[pos + 5] }, pos + 6))
                } else {
                    Err(OpcodeError::Truncated)
                }
            } else if tag == 152 {
                if pos + 6 <= cells.len() {
                    Ok((Instruction::Push5S { stack_1: cells[pos + 1], stack_2: cells[pos + 2], stack_3: cells[pos + 3], stack_4: cells[pos + 4], stack_5: cells[pos + 5] }, pos + 6))
                } else {
                    Err(OpcodeError::Truncated)
                }
            } else if tag == 153 {
                if pos + 6 <= cells.len() {
                    Ok((Instruction::Push5Adr { stack_1: cells[pos + 1], stack_2: cells[pos + 2], stack_3: cells[pos + 3], stack_4: cells[pos + 4], stack_5: cells[pos + 5] }, pos + 6))
                } else {
                    Err(OpcodeError::Truncated)
                }
            } else if tag == 154 {
                if pos + 3 <= cells.len() {
                    Ok((Instruction::LoadBoth { addr_1: cells[pos + 1], addr_2: cells[pos + 2] }, pos + 3))
                } else {
                    Err(OpcodeError::Truncated)
                }
            } else if tag == 155 {
                if pos + 3 <= cells.len() {
                    Ok((Instruction::LoadSBoth { stack_1: cells[pos + 1], stack_2: cells[pos + 2] }, pos + 3))
                } else {
                    Err(OpcodeError::Truncated)
                }
            } else if tag == 156 {
                if pos + 3 <= cells.len() {
                    Ok((Instruction::Const { addr_1: cells[pos + 1], const_1: cells[pos + 2] }, pos + 3))
                } else {
                    Err(OpcodeError::Truncated)
                }
            } else if tag == 157 {
                if pos + 3 <= cells.len() {
                    Ok((Instruction::ConstS { stack_1: cells[pos + 1], const_1: cells[pos + 2] }, pos + 3))
                } else {
                    Err(OpcodeError::Truncated)
                }
            } else if tag == 160 {
                if pos + 2 <= cells.len() {
                    Ok((Instruction::TrackerPushC { const_1: cells[pos + 1] }, pos + 2))
                } else {
                    Err(OpcodeError::Truncated)
                }
            } else if tag == 161 {
                Ok((Instruction::TrackerPopSetheap, pos + 1))
            } else if tag == 162 {
                if pos + 2 <= cells.len() {
                    Ok((Instruction::Genarray { const_1: cells[pos + 1] }, pos + 2))
                } else {
                    Err(OpcodeError::Truncated)
                }
            } else if tag == 163 {
                if pos + 2 <= cells.len() {
                    Ok((Instruction::GenarrayZ { const_1: cells[pos + 1] }, pos + 2))
                } else {
                    Err(OpcodeError::Truncated)
                }
            } else if tag == 164 {
                Ok((Instruction::StradjustPri, pos + 1))
            } else if tag == 166 {
                Ok((Instruction::Endproc, pos + 1))
            } else if tag == 169 {
                if pos + 6 <= cells.len() {
                    Ok((Instruction::InitarrayPri { addr_1: cells[pos + 1], const_1: cells[pos + 2], const_2: cells[pos + 3], const_3: cells[pos + 4], const_4: cells[pos + 5] }, pos + 6))
                } else {
                    Err(OpcodeError::Truncated)
                }
            } else if tag == 170 {
                if pos + 6 <= cells.len() {
                    Ok((Instruction::InitarrayAlt { addr_1: cells[pos + 1], const_1: cells[pos + 2], const_2: cells[pos + 3], const_3: cells[pos + 4], const_4: cells[pos + 5] }, pos + 6))
                } else {
                    Err(OpcodeError::Truncated)
                }
            } else if tag == 171 {
                Ok((Instruction::HeapSave, pos + 1))
            } else if tag == 172 {
                Ok((Instruction::HeapRestore, pos + 1))
            } else if tag == 174 {
                Ok((Instruction::Fabs, pos + 1))
            } else if tag == 175 {
                Ok((Instruction::Float, pos + 1))
            } else if tag == 176 {
                Ok((Instruction::Floatadd, pos + 1))
            } else if tag == 177 {
                Ok((Instruction::Floatsub, pos + 1))
            } else if tag == 178 {
                Ok((Instruction::Floatmul, pos + 1))
            } else if tag == 179 {
                Ok((Instruction::Floatdiv, pos + 1))
            } else if tag == 180 {
                Ok((Instruction::RndToNearest, pos + 1))
            } else if tag == 181 {
                Ok((Instruction::RndToFloor, pos + 1))
            } else if tag == 182 {
                Ok((Instruction::RndToCeil, pos + 1))
            } else if tag == 183 {
                Ok((Instruction::RndToZero, pos + 1))
            } else if tag == 184 {
                Ok((Instruction::Floatcmp, pos + 1))
            } else if tag == 185 {
                Ok((Instruction::FloatGt, pos + 1))
            } else if tag == 186 {
                Ok((Instruction::FloatGe, pos + 1))
            } else if tag == 187 {
                Ok((Instruction::FloatLt, pos + 1))
            } else if tag == 188 {
                Ok((Instruction::FloatLe, pos + 1))
            } else if tag == 189 {
                Ok((Instruction::FloatNe, pos + 1))
            } else if tag == 190 {
                Ok((Instruction::FloatEq, pos + 1))
            } else if tag == 191 {
                Ok((Instruction::FloatNot, pos + 1))
            } else {
                Err(OpcodeError::UnknownTag(tag))
            }
        }
    }

    /// Decode one instruction from `cells` at `pos`, handing back the
    /// position after it.
    pub fn read_from(cells: &[Cell], pos: usize) -> (r: Result<(Instruction, usize), OpcodeError>)
        ensures
            match r {
                Ok((inst, np)) => Self::spec_read(cells@, pos as int) == Ok::<(Instruction, int), OpcodeError>((inst, np as int)),
                Err(er) => Self::spec_read(cells@, pos as int) == Err::<(Instruction, int), OpcodeError>(er),
            },
    {
        if pos >= cells.len() {
            return Err(OpcodeError::Truncated);
        }
        let tag = cells[pos];
        match tag {
            0 => Ok((Instruction::NoOp, pos + 1)),
            1 => {
                if cells.len() - pos >= 2 {
                    Ok((Instruction::LoadPri { offset: cells[pos + 1] }, pos + 2))
                } else {
                    Err(OpcodeError::Truncated)
                }
            },
            2 => {
                if cells.len() - pos >= 2 {
                    Ok((Instruction::LoadAlt { offset: cells[pos + 1] }, pos + 2))
                } else {
                    Err(OpcodeError::Truncated)
                }
            },
            3 => {
                if cells.len() - pos >= 2 {
                    Ok((Instruction::LoadSPri { offset: cells[pos + 1] }, pos + 2))
                } else {
                    Err(OpcodeError::Truncated)
                }
            },
            4 => {
                if cells.len() - pos >= 2 {
                    Ok((Instruction::LoadSAlt { offset: cells[pos + 1] }, pos + 2))
                } else {
                    Err(OpcodeError::Truncated)
                }
            },
            7 => {
                if cells.len() - pos >= 2 {
                    Ok((Instruction::LrefSPri { offset: cells[pos + 1] }, pos + 2))
                } else {
                    Err(OpcodeError::Truncated)
                }
            },
            8 => {
                if cells.len() - pos >= 2 {
                    Ok((Instruction::LrefSAlt { offset: cells[pos + 1] }, pos + 2))
                } else {
                    Err(OpcodeError::Truncated)
                }
            },
            9 => Ok((Instruction::LoadI, pos + 1)),
            10 => {
                if cells.len() - pos >= 2 {
                    Ok((Instruction::LodbI { width: cells[pos + 1] }, pos + 2))
                } else {
                    Err(OpcodeError::Truncated)
                }
            },
            11 => {
                if cells.len() - pos >= 2 {
                    Ok((Instruction::ConstPri { value: cells[pos + 1] }, pos + 2))
                } else {
                    Err(OpcodeError::Truncated)
                }
            },
            12 => {
                if cells.len() - pos >= 2 {
                    Ok((Instruction::ConstAlt { value: cells[pos + 1] }, pos + 2))
                } else {
                    Err(OpcodeError::Truncated)
                }
            },
            13 => {
                if cells.len() - pos >= 2 {
                    Ok((Instruction::AddrPri { offset: cells[pos + 1] }, pos + 2))
                } else {
                    Err(OpcodeError::Truncated)
                }
            },
            14 => {
                if cells.len() - pos >= 2 {
                    Ok((Instruction::AddrAlt { offset: cells[pos + 1] }, pos + 2))
                } else {
                    Err(OpcodeError::Truncated)
                }
            },
            15 => {
                if cells.len() - pos >= 2 {
                    Ok((Instruction::StorPri { offset: cells[pos + 1] }, pos + 2))
                } else {
                    Err(OpcodeError::Truncated)
                }
            },
            16 => {
                if cells.len() - pos >= 2 {
                    Ok((Instruction::StorAlt { offset: cells[pos + 1] }, pos + 2))
                } else {
                    Err(OpcodeError::Truncated)
                }
            },
            17 => {
                if cells.len() - pos >= 2 {
                    Ok((Instruction::StorSPri { offset: cells[pos + 1] }, pos + 2))
                } else {
                    Err(OpcodeError::Truncated)
                }
            },
            18 => {
                if cells.len() - pos >= 2 {
                    Ok((Instruction::StorSAlt { offset: cells[pos + 1] }, pos + 2))
                } else {
                    Err(OpcodeError::Truncated)
                }
            },
            21 => {
                if cells.len() - pos >= 2 {
                    Ok((Instruction::SrefSPri { offset: cells[pos + 1] }, pos + 2))
                } else {
                    Err(OpcodeError::Truncated)
                }
            },
            22 => {
                if cells.len() - pos >= 2 {
                    Ok((Instruction::SrefSAlt { offset: cells[pos + 1] }, pos + 2))
                } else {
                    Err(OpcodeError::Truncated)
                }
            },
            23 => Ok((Instruction::StorI, pos + 1)),
            24 => {
                if cells.len() - pos >= 2 {
                    Ok((Instruction::StrbI { width: cells[pos + 1] }, pos + 2))
                } else {
                    Err(OpcodeError::Truncated)
                }
            },
            25 => Ok((Instruction::Lidx, pos + 1)),
            27 => Ok((Instruction::Idxaddr, pos + 1)),
            33 => Ok((Instruction::MovePri, pos + 1)),
            34 => Ok((Instruction::MoveAlt, pos + 1)),
            35 => Ok((Instruction::Xchg, pos + 1)),
            36 => Ok((Instruction::PushPri, pos + 1)),
            37 => Ok((Instruction::PushAlt, pos + 1)),
            39 => {
                if cells.len() - pos >= 2 {
                    Ok((Instruction::PushC { const_1: cells[pos + 1] }, pos + 2))
                } else {
                    Err(OpcodeError::Truncated)
                }
            },
            40 => {
                if cells.len() - pos >= 2 {
                    Ok((Instruction::Push { addr_1: cells[pos + 1] }, pos + 2))
                } else {
                    Err(OpcodeError::Truncated)
                }
            },
            41 => {
                if cells.len() - pos >= 2 {
                    Ok((Instruction::PushS { stack_1: cells[pos + 1] }, pos + 2))
                } else {
                    Err(OpcodeError::Truncated)
                }
            },
            42 => Ok((Instruction::PopPri, pos + 1)),
            43 => Ok((Instruction::PopAlt, pos + 1)),
            44 => {
                if cells.len() - pos >= 2 {
                    Ok((Instruction::Stack { const_1: cells[pos + 1] }, pos + 2))
                } else {
                    Err(OpcodeError::Truncated)
                }
            },
            45 => {
                if cells.len() - pos >= 2 {
                    Ok((Instruction::Heap { const_1: cells[pos + 1] }, pos + 2))
                } else {
                    Err(OpcodeError::Truncated)
                }
            },
            46 => Ok((Instruction::Proc, pos + 1)),
            48 => Ok((Instruction::Retn, pos + 1)),
            49 => {
                if cells.len() - pos >= 2 {
                    Ok((Instruction::Call { func_1: cells[pos + 1] }, pos + 2))
                } else {
                    Err(OpcodeError::Truncated)
                }
            },
            51 => {
                if cells.len() - pos >= 2 {
                    Ok((Instruction::Jump { jump_1: cells[pos + 1] }, pos + 2))
                } else {
                    Err(OpcodeError::Truncated)
                }
            },
            53 => {
                if cells.len() - pos >= 2 {
                    Ok((Instruction::Jzer { jump_1: cells[pos + 1] }, pos + 2))
                } else {
                    Err(OpcodeError::Truncated)
                }
            },
            54 => {
                if cells.len() - pos >= 2 {
                    Ok((Instruction::Jnz { jump_1: cells[pos + 1] }, pos + 2))
                } else {
                    Err(OpcodeError::Truncated)
                }
            },
            55 => {
                if cells.len() - pos >= 2 {
                    Ok((Instruction::Jeq { jump_1: cells[pos + 1] }, pos + 2))
                } else {
                    Err(OpcodeError::Truncated)
                }
            },
            56 => {
                if cells.len() - pos >= 2 {
                    Ok((Instruction::Jneq { jump_1: cells[pos + 1] }, pos + 2))
                } else {
                    Err(OpcodeError::Truncated)
                }
            },
            61 => {
                if cells.len() - pos >= 2 {
                    Ok((Instruction::Jsless { jump_1: cells[pos + 1] }, pos + 2))
                } else {
                    Err(OpcodeError::Truncated)
                }
            },
            62 => {
                if cells.len() - pos >= 2 {
                    Ok((Instruction::Jsleq { jump_1: cells[pos + 1] }, pos + 2))
                } else {
                    Err(OpcodeError::Truncated)
                }
            },
            63 => {
                if cells.len() - pos >= 2 {
                    Ok((Instruction::Jsgrtr { jump_1: cells[pos + 1] }, pos + 2))
                } else {
                    Err(OpcodeError::Truncated)
                }
            },
            64 => {
                if cells.len() - pos >= 2 {
                    Ok((Instruction::Jsgeq { jump_1: cells[pos + 1] }, pos + 2))
                } else {
                    Err(OpcodeError::Truncated)
                }
            },
            65 => Ok((Instruction::Shl, pos + 1)),
            66 => Ok((Instruction::Shr, pos + 1)),
            67 => Ok((Instruction::Sshr, pos + 1)),
            68 => {
                if cells.len() - pos >= 2 {
                    Ok((Instruction::ShlCPri { const_1: cells[pos + 1] }, pos + 2))
                } else {
                    Err(OpcodeError::Truncated)
                }
            },
            69 => {
                if cells.len() - pos >= 2 {
                    Ok((Instruction::ShlCAlt { const_1: cells[pos + 1] }, pos + 2))
                } else {
                    Err(OpcodeError::Truncated)
                }
            },
            72 => Ok((Instruction::Smul, pos + 1)),
            73 => Ok((Instruction::Sdiv, pos + 1)),
            74 => Ok((Instruction::SdivAlt, pos + 1)),
            78 => Ok((Instruction::Add, pos + 1)),
            79 => Ok((Instruction::Sub, pos + 1)),
            80 => Ok((Instruction::SubAlt, pos + 1)),
            81 => Ok((Instruction::And, pos + 1)),
            82 => Ok((Instruction::Or, pos + 1)),
            83 => Ok((Instruction::Xor, pos + 1)),
            84 => Ok((Instruction::Not, pos + 1)),
            85 => Ok((Instruction::Neg, pos + 1)),
            86 => Ok((Instruction::Invert, pos + 1)),
            87 => {
                if cells.len() - pos >= 2 {
                    Ok((Instruction::AddC { const_1: cells[pos + 1] }, pos + 2))
                } else {
                    Err(OpcodeError::Truncated)
                }
            },
            88 => {
                if cells.len() - pos >= 2 {
                    Ok((Instruction::SmulC { const_1: cells[pos + 1] }, pos + 2))
                } else {
                    Err(OpcodeError::Truncated)
                }
            },
            89 => Ok((Instruction::ZeroPri, pos + 1)),
            90 => Ok((Instruction::ZeroAlt, pos + 1)),
            91 => {
                if cells.len() - pos >= 2 {
                    Ok((Instruction::Zero { addr_1: cells[pos + 1] }, pos + 2))
                } else {
                    Err(OpcodeError::Truncated)
                }
            },
            92 => {
                if cells.len() - pos >= 2 {
                    Ok((Instruction::ZeroS { stack_1: cells[pos + 1] }, pos + 2))
                } else {
                    Err(OpcodeError::Truncated)
                }
            },
            95 => Ok((Instruction::Eq, pos + 1)),
            96 => Ok((Instruction::Neq, pos + 1)),
            101 => Ok((Instruction::Sless, pos + 1)),
            102 => Ok((Instruction::Sleq, pos + 1)),
            103 => Ok((Instruction::Sgrtr, pos + 1)),
            104 => Ok((Instruction::Sgeq, pos + 1)),
            105 => {
                if cells.len() - pos >= 2 {
                    Ok((Instruction::EqCPri { const_1: cells[pos + 1] }, pos + 2))
                } else {
                    Err(OpcodeError::Truncated)
                }
            },
            106 => {
                if cells.len() - pos >= 2 {
                    Ok((Instruction::EqCAlt { const_1: cells[pos + 1] }, pos + 2))
                } else {
                    Err(OpcodeError::Truncated)
                }
            },
            107 => Ok((Instruction::IncPri, pos + 1)),
            108 => Ok((Instruction::IncAlt, pos + 1)),
            109 => {
                if cells.len() - pos >= 2 {
                    Ok((Instruction::Inc { addr_1: cells[pos + 1] }, pos + 2))
                } else {
                    Err(OpcodeError::Truncated)
                }
            },
            110 => {
                if cells.len() - pos >= 2 {
                    Ok((Instruction::IncS { stack_1: cells[pos + 1] }, pos + 2))
                } else {
                    Err(OpcodeError::Truncated)
                }
            },
            111 => Ok((Instruction::IncI, pos + 1)),
            112 => Ok((Instruction::DecPri, pos + 1)),
            113 => Ok((Instruction::DecAlt, pos + 1)),
            114 => {
                if cells.len() - pos >= 2 {
                    Ok((Instruction::Dec { addr_1: cells[pos + 1] }, pos + 2))
                } else {
                    Err(OpcodeError::Truncated)
                }
            },
            115 => {
                if cells.len() - pos >= 2 {
                    Ok((Instruction::DecS { stack_1: cells[pos + 1] }, pos + 2))
                } else {
                    Err(OpcodeError::Truncated)
                }
            },
            116 => Ok((Instruction::DecI, pos + 1)),
            117 => {
                if cells.len() - pos >= 2 {
                    Ok((Instruction::Movs { const_1: cells[pos + 1] }, pos + 2))
                } else {
                    Err(OpcodeError::Truncated)
                }
            },
            119 => {
                if cells.len() - pos >= 2 {
                    Ok((Instruction::Fill { const_1: cells[pos + 1] }, pos + 2))
                } else {
                    Err(OpcodeError::Truncated)
                }
            },
            120 => {
                if cells.len() - pos >= 2 {
                    Ok((Instruction::Halt { const_1: cells[pos + 1] }, pos + 2))
                } else {
                    Err(OpcodeError::Truncated)
                }
            },
            121 => {
                if cells.len() - pos >= 2 {
                    Ok((Instruction::Bounds { const_1: cells[pos + 1] }, pos + 2))
                } else {
                    Err(OpcodeError::Truncated)
                }
            },
            123 => {
                if cells.len() - pos >= 2 {
                    Ok((Instruction::SysreqC { native_1: cells[pos + 1] }, pos + 2))
                } else {
                    Err(OpcodeError::Truncated)
                }
            },
            129 => {
                if cells.len() - pos >= 2 {
                    Ok((Instruction::Switch { jump_1: cells[pos + 1] }, pos + 2))
                } else {
                    Err(OpcodeError::Truncated)
                }
            },
            130 => {
                if cells.len() - pos >= 3 {
                    Ok((Instruction::Casetbl { const_1: cells[pos + 1], jump_1: cells[pos + 2] }, pos + 3))
                } else {
                    Err(OpcodeError::Truncated)
                }
            },
            131 => Ok((Instruction::SwapPri, pos + 1)),
            132 => Ok((Instruction::SwapAlt, pos + 1)),
            133 => {
                if cells.len() - pos >= 2 {
                    Ok((Instruction::PushAdr { stack_1: cells[pos + 1] }, pos + 2))
                } else {
                    Err(OpcodeError::Truncated)
                }
            },
            134 => Ok((Instruction::Nop, pos + 1)),
            135 => {
                if cells.len() - pos >= 3 {
                    Ok((Instruction::SysreqN { native: cells[pos + 1], n_args: cells[pos + 2] }, pos + 3))
                } else {
                    Err(OpcodeError::Truncated)
                }
            },
            137 => Ok((Instruction::Break, pos + 1)),
            138 => {
                if cells.len() - pos >= 3 {
                    Ok((Instruction::Push2C { const_1: cells[pos + 1], const_2: cells[pos + 2] }, pos + 3))
                } else {
                    Err(OpcodeError::Truncated)
                }
            },
            139 => {
                if cells.len() - pos >= 3 {
                    Ok((Instruction::Push2 { addr_1: cells[pos + 1], addr_2: cells[pos + 2] }, pos + 3))
                } else {
                    Err(OpcodeError::Truncated)
                }
            },
            140 => {
                if cells.len() - pos >= 3 {
                    Ok((Instruction::Push2S { stack_1: cells[pos + 1], stack_2: cells[pos + 2] }, pos + 3))
                } else {
                    Err(OpcodeError::Truncated)
                }
            },
            141 => {
                if cells.len() - pos >= 3 {
                    Ok((Instruction::Push2Adr { stack_1: cells[pos + 1], stack_2: cells[pos + 2] }, pos + 3))
                } else {
                    Err(OpcodeError::Truncated)
                }
            },
            142 => {
                if cells.len() - pos >= 4 {
                    Ok((Instruction::Push3C { const_1: cells[pos + 1], const_2: cells[pos + 2], const_3: cells[pos + 3] }, pos + 4))
                } else {
                    Err(OpcodeError::Truncated)
                }
            },
            143 => {
                if cells.len() - pos >= 4 {
                    Ok((Instruction::Push3 { addr_1: cells[pos + 1], addr_2: cells[pos + 2], addr_3: cells[pos + 3] }, pos + 4))
                } else {
                    Err(OpcodeError::Truncated)
                }
            },
            144 => {
                if cells.len() - pos >= 4 {
                    Ok((Instruction::Push3S { stack_1: cells[pos + 1], stack_2: cells[pos + 2], stack_3: cells[pos + 3] }, pos + 4))
                } else {
                    Err(OpcodeError::Truncated)
                }
            },
            145 => {
                if cells.len() - pos >= 4 {
                    Ok((Instruction::Push3Adr { stack_1: cells[pos + 1], stack_2: cells[pos + 2], stack_3: cells[pos + 3] }, pos + 4))
                } else {
                    Err(OpcodeError::Truncated)
                }
            },
            146 => {
                if cells.len() - pos >= 5 {
                    Ok((Instruction::Push4C { const_1: cells[pos + 1], const_2: cells[pos + 2], const_3: cells[pos + 3], const_4: cells[pos + 4] }, pos + 5))
                } else {
                    Err(OpcodeError::Truncated)
                }
            },
            147 => {
                if cells.len() - pos >= 5 {
                    Ok((Instruction::Push4 { addr_1: cells[pos + 1], addr_2: cells[pos + 2], addr_3: cells[pos + 3], addr_4: cells[pos + 4] }, pos + 5))
                } else {
                    Err(OpcodeError::Truncated)
                }
            },
            148 => {
                if cells.len() - pos >= 5 {
                    Ok((Instruction::Push4S { stack_1: cells[pos + 1], stack_2: cells[pos + 2], stack_3: cells[pos + 3], stack_4: cells[pos + 4] }, pos + 5))
                } else {
                    Err(OpcodeError::Truncated)
                }
            },
            149 => {
                if cells.len() - pos >= 5 {
                    Ok((Instruction::Push4Adr { stack_1: cells[pos + 1], stack_2: cells[pos + 2], stack_3: cells[pos + 3], stack_4: cells[pos + 4] }, pos + 5))
                } else {
                    Err(OpcodeError::Truncated)
                }
            },
            150 => {
                if cells.len() - pos >= 6 {
                    Ok((Instruction::Push5C { const_1: cells[pos + 1], const_2: cells[pos + 2], const_3: cells[pos + 3], const_4: cells[pos + 4], const_5: cells[pos + 5] }, pos + 6))
                } else {
                    Err(OpcodeError::Truncated)
                }
            },
            151 => {
                if cells.len() - pos >= 6 {
                    Ok((Instruction::Push5 { addr_1: cells[pos + 1], addr_2: cells[pos + 2], addr_3: cells[pos + 3], addr_4: cells[pos + 4], addr_5: cells[pos + 5] }, pos + 6))
                } else {
                    Err(OpcodeError::Truncated)
                }
            },
            152 => {
                if cells.len() - pos >= 6 {
                    Ok((Instruction::Push5S { stack_1: cells[pos + 1], stack_2: cells[pos + 2], stack_3: cells[pos + 3], stack_4: cells[pos + 4], stack_5: cells[pos + 5] }, pos + 6))
                } else {
                    Err(OpcodeError::Truncated)
                }
            },
            153 => {
                if cells.len() - pos >= 6 {
                    Ok((Instruction::Push5Adr { stack_1: cells[pos + 1], stack_2: cells[pos + 2], stack_3: cells[pos + 3], stack_4: cells[pos + 4], stack_5: cells[pos + 5] }, pos + 6))
                } else {
                    Err(OpcodeError::Truncated)
                }
            },
            154 => {
                if cells.len() - pos >= 3 {
                    Ok((Instruction::LoadBoth { addr_1: cells[pos + 1], addr_2: cells[pos + 2] }, pos + 3))
                } else {
                    Err(OpcodeError::Truncated)
                }
            },
            155 => {
                if cells.len() - pos >= 3 {
                    Ok((Instruction::LoadSBoth { stack_1: cells[pos + 1], stack_2: cells[pos + 2] }, pos + 3))
                } else {
                    Err(OpcodeError::Truncated)
                }
            },
            156 => {
                if cells.len() - pos >= 3 {
                    Ok((Instruction::Const { addr_1: cells[pos + 1], const_1: cells[pos + 2] }, pos + 3))
                } else {
                    Err(OpcodeError::Truncated)
                }
            },
            157 => {
                if cells.len() - pos >= 3 {
                    Ok((Instruction::ConstS { stack_1: cells[pos + 1], const_1: cells[pos + 2] }, pos + 3))
                } else {
                    Err(OpcodeError::Truncated)
                }
            },
            160 => {
                if cells.len() - pos >= 2 {
                    Ok((Instruction::TrackerPushC { const_1: cells[pos + 1] }, pos + 2))
                } else {
                    Err(OpcodeError::Truncated)
                }
            },
            161 => Ok((Instruction::TrackerPopSetheap, pos + 1)),
            162 => {
                if cells.len() - pos >= 2 {
                    Ok((Instruction::Genarray { const_1: cells[pos + 1] }, pos + 2))
                } else {
                    Err(OpcodeError::Truncated)
                }
            },
            163 => {
                if cells.len() - pos >= 2 {
                    Ok((Instruction::GenarrayZ { const_1: cells[pos + 1] }, pos + 2))
                } else {
                    Err(OpcodeError::Truncated)
                }
            },
            164 => Ok((Instruction::StradjustPri, pos + 1)),
            166 => Ok((Instruction::Endproc, pos + 1)),
            169 => {
                if cells.len() - pos >= 6 {
                    Ok((Instruction::InitarrayPri { addr_1: cells[pos + 1], const_1: cells[pos + 2], const_2: cells[pos + 3], const_3: cells[pos + 4], const_4: cells[pos + 5] }, pos + 6))
                } else {
                    Err(OpcodeError::Truncated)
                }
            },
            170 => {
                if cells.len() - pos >= 6 {
                    Ok((Instruction::InitarrayAlt { addr_1: cells[pos + 1], const_1: cells[pos + 2], const_2: cells[pos + 3], const_3: cells[pos + 4], const_4: cells[pos + 5] }, pos + 6))
                } else {
                    Err(OpcodeError::Truncated)
                }
            },
            171 => Ok((Instruction::HeapSave, pos + 1)),
            172 => Ok((Instruction::HeapRestore, pos + 1)),
            174 => Ok((Instruction::Fabs, pos + 1)),
            175 => Ok((Instruction::Float, pos + 1)),
            176 => Ok((Instruction::Floatadd, pos + 1)),
            177 => Ok((Instruction::Floatsub, pos + 1)),
            178 => Ok((Instruction::Floatmul, pos + 1)),
            179 => Ok((Instruction::Floatdiv, pos + 1)),
            180 => Ok((Instruction::RndToNearest, pos + 1)),
            181 => Ok((Instruction::RndToFloor, pos + 1)),
            182 => Ok((Instruction::RndToCeil, pos + 1)),
            183 => Ok((Instruction::RndToZero, pos + 1)),
            184 => Ok((Instruction::Floatcmp, pos + 1)),
            185 => Ok((Instruction::FloatGt, pos + 1)),
            186 => Ok((Instruction::FloatGe, pos + 1)),
            187 => Ok((Instruction::FloatLt, pos + 1)),
            188 => Ok((Instruction::FloatLe, pos + 1)),
            189 => Ok((Instruction::FloatNe, pos + 1)),
            190 => Ok((Instruction::FloatEq, pos + 1)),
            191 => Ok((Instruction::FloatNot, pos + 1)),
            _ => Err(OpcodeError::UnknownTag(tag)),
        }
    }

    /// Append this instruction's cells: its tag, then its operands.
    pub fn write_to(&self, cells: &mut Vec<Cell>)
        ensures
            final(cells)@ == old(cells)@ + self.encoding(),
    {
        match self {
            Instruction::NoOp => {
                cells.push(0);
                proof {
                    assert(cells@ =~= old(cells)@ + self.encoding());
                }
            },
            Instruction::LoadPri { offset } => {
                cells.push(1);
                cells.push(*offset);
                proof {
                    assert(cells@ =~= old(cells)@ + self.encoding());
                }
            },
            Instruction::LoadAlt { offset } => {
                cells.push(2);
                cells.push(*offset);
                proof {
                    assert(cells@ =~= old(cells)@ + self.encoding());
                }
            },
            Instruction::LoadSPri { offset } => {
                cells.push(3);
                cells.push(*offset);
                proof {
                    assert(cells@ =~= old(cells)@ + self.encoding());
                }
            },
            Instruction::LoadSAlt { offset } => {
                cells.push(4);
                cells.push(*offset);
                proof {
                    assert(cells@ =~= old(cells)@ + self.encoding());
                }
            },
            Instruction::LrefSPri { offset } => {
                cells.push(7);
                cells.push(*offset);
                proof {
                    assert(cells@ =~= old(cells)@ + self.encoding());
                }
            },
            Instruction::LrefSAlt { offset } => {
                cells.push(8);
                cells.push(*offset);
                proof {
                    assert(cells@ =~= old(cells)@ + self.encoding());
                }
            },
            Instruction::LoadI => {
                cells.push(9);
                proof {
                    assert(cells@ =~= old(cells)@ + self.encoding());
                }
            },
            Instruction::LodbI { width } => {
                cells.push(10);
                cells.push(*width);
                proof {
                    assert(cells@ =~= old(cells)@ + self.encoding());
                }
            },
            Instruction::ConstPri { value } => {
                cells.push(11);
                cells.push(*value);
                proof {
                    assert(cells@ =~= old(cells)@ + self.encoding());
                }
            },
            Instruction::ConstAlt { value } => {
                cells.push(12);
                cells.push(*value);
                proof {
                    assert(cells@ =~= old(cells)@ + self.encoding());
                }
            },
            Instruction::AddrPri { offset } => {
                cells.push(13);
                cells.push(*offset);
                proof {
                    assert(cells@ =~= old(cells)@ + self.encoding());
                }
            },
            Instruction::AddrAlt { offset } => {
                cells.push(14);
                cells.push(*offset);
                proof {
                    assert(cells@ =~= old(cells)@ + self.encoding());
                }
            },
            Instruction::StorPri { offset } => {
                cells.push(15);
                cells.push(*offset);
                proof {
                    assert(cells@ =~= old(cells)@ + self.encoding());
                }
            },
            Instruction::StorAlt { offset } => {
                cells.push(16);
                cells.push(*offset);
                proof {
                    assert(cells@ =~= old(cells)@ + self.encoding());
                }
            },
            Instruction::StorSPri { offset } => {
                cells.push(17);
                cells.push(*offset);
                proof {
                    assert(cells@ =~= old(cells)@ + self.encoding());
                }
            },
            Instruction::StorSAlt { offset } => {
                cells.push(18);
                cells.push(*offset);
                proof {
                    assert(cells@ =~= old(cells)@ + self.encoding());
                }
            },
            Instruction::SrefSPri { offset } => {
                cells.push(21);
                cells.push(*offset);
                proof {
                    assert(cells@ =~= old(cells)@ + self.encoding());
                }
            },
            Instruction::SrefSAlt { offset } => {
                cells.push(22);
                cells.push(*offset);
                proof {
                    assert(cells@ =~= old(cells)@ + self.encoding());
                }
            },
            Instruction::StorI => {
                cells.push(23);
                proof {
                    assert(cells@ =~= old(cells)@ + self.encoding());
                }
            },
            Instruction::StrbI { width } => {
                cells.push(24);
                cells.push(*width);
                proof {
                    assert(cells@ =~= old(cells)@ + self.encoding());
                }
            },
            Instruction::Lidx => {
                cells.push(25);
                proof {
                    assert(cells@ =~= old(cells)@ + self.encoding());
                }
            },
            Instruction::Idxaddr => {
                cells.push(27);
                proof {
                    assert(cells@ =~= old(cells)@ + self.encoding());
                }
            },
            Instruction::MovePri => {
                cells.push(33);
                proof {
                    assert(cells@ =~= old(cells)@ + self.encoding());
                }
            },
            Instruction::MoveAlt => {
                cells.push(34);
                proof {
                    assert(cells@ =~= old(cells)@ + self.encoding());
                }
            },
            Instruction::Xchg => {
                cells.push(35);
                proof {
                    assert(cells@ =~= old(cells)@ + self.encoding());
                }
            },
            Instruction::PushPri => {
                cells.push(36);
                proof {
                    assert(cells@ =~= old(cells)@ + self.encoding());
                }
            },
            Instruction::PushAlt => {
                cells.push(37);
                proof {
                    assert(cells@ =~= old(cells)@ + self.encoding());
                }
            },
            Instruction::PushC { const_1 } => {
                cells.push(39);
                cells.push(*const_1);
                proof {
                    assert(cells@ =~= old(cells)@ + self.encoding());
                }
            },
            Instruction::Push { addr_1 } => {
                cells.push(40);
                cells.push(*addr_1);
                proof {
                    assert(cells@ =~= old(cells)@ + self.encoding());
                }
            },
            Instruction::PushS { stack_1 } => {
                cells.push(41);
                cells.push(*stack_1);
                proof {
                    assert(cells@ =~= old(cells)@ + self.encoding());
                }
            },
            Instruction::PopPri => {
                cells.push(42);
                proof {
                    assert(cells@ =~= old(cells)@ + self.encoding());
                }
            },
            Instruction::PopAlt => {
                cells.push(43);
                proof {
                    assert(cells@ =~= old(cells)@ + self.encoding());
                }
            },
            Instruction::Stack { const_1 } => {
                cells.push(44);
                cells.push(*const_1);
                proof {
                    assert(cells@ =~= old(cells)@ + self.encoding());
                }
            },
            Instruction::Heap { const_1 } => {
                cells.push(45);
                cells.push(*const_1);
                proof {
                    assert(cells@ =~= old(cells)@ + self.encoding());
                }
            },
            Instruction::Proc => {
                cells.push(46);
                proof {
                    assert(cells@ =~= old(cells)@ + self.encoding());
                }
            },
            Instruction::Retn => {
                cells.push(48);
                proof {
                    assert(cells@ =~= old(cells)@ + self.encoding());
                }
            },
            Instruction::Call { func_1 } => {
                cells.push(49);
                cells.push(*func_1);
                proof {
                    assert(cells@ =~= old(cells)@ + self.encoding());
                }
            },
            Instruction::Jump { jump_1 } => {
                cells.push(51);
                cells.push(*jump_1);
                proof {
                    assert(cells@ =~= old(cells)@ + self.encoding());
                }
            },
            Instruction::Jzer { jump_1 } => {
                cells.push(53);
                cells.push(*jump_1);
                proof {
                    assert(cells@ =~= old(cells)@ + self.encoding());
                }
            },
            Instruction::Jnz { jump_1 } => {
                cells.push(54);
                cells.push(*jump_1);
                proof {
                    assert(cells@ =~= old(cells)@ + self.encoding());
                }
            },
            Instruction::Jeq { jump_1 } => {
                cells.push(55);
                cells.push(*jump_1);
                proof {
                    assert(cells@ =~= old(cells)@ + self.encoding());
                }
            },
            Instruction::Jneq { jump_1 } => {
                cells.push(56);
                cells.push(*jump_1);
                proof {
                    assert(cells@ =~= old(cells)@ + self.encoding());
                }
            },
            Instruction::Jsless { jump_1 } => {
                cells.push(61);
                cells.push(*jump_1);
                proof {
                    assert(cells@ =~= old(cells)@ + self.encoding());
                }
            },
            Instruction::Jsleq { jump_1 } => {
                cells.push(62);
                cells.push(*jump_1);
                proof {
                    assert(cells@ =~= old(cells)@ + self.encoding());
                }
            },
            Instruction::Jsgrtr { jump_1 } => {
                cells.push(63);
                cells.push(*jump_1);
                proof {
                    assert(cells@ =~= old(cells)@ + self.encoding());
                }
            },
            Instruction::Jsgeq { jump_1 } => {
                cells.push(64);
                cells.push(*jump_1);
                proof {
                    assert(cells@ =~= old(cells)@ + self.encoding());
                }
            },
            Instruction::Shl => {
                cells.push(65);
                proof {
                    assert(cells@ =~= old(cells)@ + self.encoding());
                }
            },
            Instruction::Shr => {
                cells.push(66);
                proof {
                    assert(cells@ =~= old(cells)@ + self.encoding());
                }
            },
            Instruction::Sshr => {
                cells.push(67);
                proof {
                    assert(cells@ =~= old(cells)@ + self.encoding());
                }
            },
            Instruction::ShlCPri { const_1 } => {
                cells.push(68);
                cells.push(*const_1);
                proof {
                    assert(cells@ =~= old(cells)@ + self.encoding());
                }
            },
            Instruction::ShlCAlt { const_1 } => {
                cells.push(69);
                cells.push(*const_1);
                proof {
                    assert(cells@ =~= old(cells)@ + self.encoding());
                }
            },
            Instruction::Smul => {
                cells.push(72);
                proof {
                    assert(cells@ =~= old(cells)@ + self.encoding());
                }
            },
            Instruction::Sdiv => {
                cells.push(73);
                proof {
                    assert(cells@ =~= old(cells)@ + self.encoding());
                }
            },
            Instruction::SdivAlt => {
                cells.push(74);
                proof {
                    assert(cells@ =~= old(cells)@ + self.encoding());
                }
            },
            Instruction::Add => {
                cells.push(78);
                proof {
                    assert(cells@ =~= old(cells)@ + self.encoding());
                }
            },
            Instruction::Sub => {
                cells.push(79);
                proof {
                    assert(cells@ =~= old(cells)@ + self.encoding());
                }
            },
            Instruction::SubAlt => {
                cells.push(80);
                proof {
                    assert(cells@ =~= old(cells)@ + self.encoding());
                }
            },
            Instruction::And => {
                cells.push(81);
                proof {
                    assert(cells@ =~= old(cells)@ + self.encoding());
                }
            },
            Instruction::Or => {
                cells.push(82);
                proof {
                    assert(cells@ =~= old(cells)@ + self.encoding());
                }
            },
            Instruction::Xor => {
                cells.push(83);
                proof {
                    assert(cells@ =~= old(cells)@ + self.encoding());
                }
            },
            Instruction::Not => {
                cells.push(84);
                proof {
                    assert(cells@ =~= old(cells)@ + self.encoding());
                }
            },
            Instruction::Neg => {
                cells.push(85);
                proof {
                    assert(cells@ =~= old(cells)@ + self.encoding());
                }
            },
            Instruction::Invert => {
                cells.push(86);
                proof {
                    assert(cells@ =~= old(cells)@ + self.encoding());
                }
            },
            Instruction::AddC { const_1 } => {
                cells.push(87);
                cells.push(*const_1);
                proof {
                    assert(cells@ =~= old(cells)@ + self.encoding());
                }
            },
            Instruction::SmulC { const_1 } => {
                cells.push(88);
                cells.push(*const_1);
                proof {
                    assert(cells@ =~= old(cells)@ + self.encoding());
                }
            },
            Instruction::ZeroPri => {
                cells.push(89);
                proof {
                    assert(cells@ =~= old(cells)@ + self.encoding());
                }
            },
            Instruction::ZeroAlt => {
                cells.push(90);
                proof {
                    assert(cells@ =~= old(cells)@ + self.encoding());
                }
            },
            Instruction::Zero { addr_1 } => {
                cells.push(91);
                cells.push(*addr_1);
                proof {
                    assert(cells@ =~= old(cells)@ + self.encoding());
                }
            },
            Instruction::ZeroS { stack_1 } => {
                cells.push(92);
                cells.push(*stack_1);
                proof {
                    assert(cells@ =~= old(cells)@ + self.encoding());
                }
            },
            Instruction::Eq => {
                cells.push(95);
                proof {
                    assert(cells@ =~= old(cells)@ + self.encoding());
                }
            },
            Instruction::Neq => {
                cells.push(96);
                proof {
                    assert(cells@ =~= old(cells)@ + self.encoding());
                }
            },
            Instruction::Sless => {
                cells.push(101);
                proof {
                    assert(cells@ =~= old(cells)@ + self.encoding());
                }
            },
            Instruction::Sleq => {
                cells.push(102);
                proof {
                    assert(cells@ =~= old(cells)@ + self.encoding());
                }
            },
            Instruction::Sgrtr => {
                cells.push(103);
                proof {
                    assert(cells@ =~= old(cells)@ + self.encoding());
                }
            },
            Instruction::Sgeq => {
                cells.push(104);
                proof {
                    assert(cells@ =~= old(cells)@ + self.encoding());
                }
            },
            Instruction::EqCPri { const_1 } => {
                cells.push(105);
                cells.push(*const_1);
                proof {
                    assert(cells@ =~= old(cells)@ + self.encoding());
                }
            },
            Instruction::EqCAlt { const_1 } => {
                cells.push(106);
                cells.push(*const_1);
                proof {
                    assert(cells@ =~= old(cells)@ + self.encoding());
                }
            },
            Instruction::IncPri => {
                cells.push(107);
                proof {
                    assert(cells@ =~= old(cells)@ + self.encoding());
                }
            },
            Instruction::IncAlt => {
                cells.push(108);
                proof {
                    assert(cells@ =~= old(cells)@ + self.encoding());
                }
            },
            Instruction::Inc { addr_1 } => {
                cells.push(109);
                cells.push(*addr_1);
                proof {
                    assert(cells@ =~= old(cells)@ + self.encoding());
                }
            },
            Instruction::IncS { stack_1 } => {
                cells.push(110);
                cells.push(*stack_1);
                proof {
                    assert(cells@ =~= old(cells)@ + self.encoding());
                }
            },
            Instruction::IncI => {
                cells.push(111);
                proof {
                    assert(cells@ =~= old(cells)@ + self.encoding());
                }
            },
            Instruction::DecPri => {
                cells.push(112);
                proof {
                    assert(cells@ =~= old(cells)@ + self.encoding());
                }
            },
            Instruction::DecAlt => {
                cells.push(113);
                proof {
                    assert(cells@ =~= old(cells)@ + self.encoding());
                }
            },
            Instruction::Dec { addr_1 } => {
                cells.push(114);
                cells.push(*addr_1);
                proof {
                    assert(cells@ =~= old(cells)@ + self.encoding());
                }
            },
            Instruction::DecS { stack_1 } => {
                cells.push(115);
                cells.push(*stack_1);
                proof {
                    assert(cells@ =~= old(cells)@ + self.encoding());
                }
            },
            Instruction::DecI => {
                cells.push(116);
                proof {
                    assert(cells@ =~= old(cells)@ + self.encoding());
                }
            },
            Instruction::Movs { const_1 } => {
                cells.push(117);
                cells.push(*const_1);
                proof {
                    assert(cells@ =~= old(cells)@ + self.encoding());
                }
            },
            Instruction::Fill { const_1 } => {
                cells.push(119);
                cells.push(*const_1);
                proof {
                    assert(cells@ =~= old(cells)@ + self.encoding());
                }
            },
            Instruction::Halt { const_1 } => {
                cells.push(120);
                cells.push(*const_1);
                proof {
                    assert(cells@ =~= old(cells)@ + self.encoding());
                }
            },
            Instruction::Bounds { const_1 } => {
                cells.push(121);
                cells.push(*const_1);
                proof {
                    assert(cells@ =~= old(cells)@ + self.encoding());
                }
            },
            Instruction::SysreqC { native_1 } => {
                cells.push(123);
                cells.push(*native_1);
                proof {
                    assert(cells@ =~= old(cells)@ + self.encoding());
                }
            },
            Instruction::Switch { jump_1 } => {
                cells.push(129);
                cells.push(*jump_1);
                proof {
                    assert(cells@ =~= old(cells)@ + self.encoding());
                }
            },
            Instruction::Casetbl { const_1, jump_1 } => {
                cells.push(130);
                cells.push(*const_1);
                cells.push(*jump_1);
                proof {
                    assert(cells@ =~= old(cells)@ + self.encoding());
                }
            },
            Instruction::SwapPri => {
                cells.push(131);
                proof {
                    assert(cells@ =~= old(cells)@ + self.encoding());
                }
            },
            Instruction::SwapAlt => {
                cells.push(132);
                proof {
                    assert(cells@ =~= old(cells)@ + self.encoding());
                }
            },
            Instruction::PushAdr { stack_1 } => {
                cells.push(133);
                cells.push(*stack_1);
                proof {
                    assert(cells@ =~= old(cells)@ + self.encoding());
                }
            },
            Instruction::Nop => {
                cells.push(134);
                proof {
                    assert(cells@ =~= old(cells)@ + self.encoding());
                }
            },
            Instruction::SysreqN { native, n_args } => {
                cells.push(135);
                cells.push(*native);
                cells.push(*n_args);
                proof {
                    assert(cells@ =~= old(cells)@ + self.encoding());
                }
            },
            Instruction::Break => {
                cells.push(137);
                proof {
                    assert(cells@ =~= old(cells)@ + self.encoding());
                }
            },
            Instruction::Push2C { const_1, const_2 } => {
                cells.push(138);
                cells.push(*const_1);
                cells.push(*const_2);
                proof {
                    assert(cells@ =~= old(cells)@ + self.encoding());
                }
            },
            Instruction::Push2 { addr_1, addr_2 } => {
                cells.push(139);
                cells.push(*addr_1);
                cells.push(*addr_2);
                proof {
                    assert(cells@ =~= old(cells)@ + self.encoding());
                }
            },
            Instruction::Push2S { stack_1, stack_2 } => {
                cells.push(140);
                cells.push(*stack_1);
                cells.push(*stack_2);
                proof {
                    assert(cells@ =~= old(cells)@ + self.encoding());
                }
            },
            Instruction::Push2Adr { stack_1, stack_2 } => {
                cells.push(141);
                cells.push(*stack_1);
                cells.push(*stack_2);
                proof {
                    assert(cells@ =~= old(cells)@ + self.encoding());
                }
            },
            Instruction::Push3C { const_1, const_2, const_3 } => {
                cells.push(142);
                cells.push(*const_1);
                cells.push(*const_2);
                cells.push(*const_3);
                proof {
                    assert(cells@ =~= old(cells)@ + self.encoding());
                }
            },
            Instruction::Push3 { addr_1, addr_2, addr_3 } => {
                cells.push(143);
                cells.push(*addr_1);
                cells.push(*addr_2);
                cells.push(*addr_3);
                proof {
                    assert(cells@ =~= old(cells)@ + self.encoding());
                }
            },
            Instruction::Push3S { stack_1, stack_2, stack_3 } => {
                cells.push(144);
                cells.push(*stack_1);
                cells.push(*stack_2);
                cells.push(*stack_3);
                proof {
                    assert(cells@ =~= old(cells)@ + self.encoding());
                }
            },
            Instruction::Push3Adr { stack_1, stack_2, stack_3 } => {
                cells.push(145);
                cells.push(*stack_1);
                cells.push(*stack_2);
                cells.push(*stack_3);
                proof {
                    assert(cells@ =~= old(cells)@ + self.encoding());
                }
            },
            Instruction::Push4C { const_1, const_2, const_3, const_4 } => {
                cells.push(146);
                cells.push(*const_1);
                cells.push(*const_2);
                cells.push(*const_3);
                cells.push(*const_4);
                proof {
                    assert(cells@ =~= old(cells)@ + self.encoding());
                }
            },
            Instruction::Push4 { addr_1, addr_2, addr_3, addr_4 } => {
                cells.push(147);
                cells.push(*addr_1);
                cells.push(*addr_2);
                cells.push(*addr_3);
                cells.push(*addr_4);
                proof {
                    assert(cells@ =~= old(cells)@ + self.encoding());
                }
            },
            Instruction::Push4S { stack_1, stack_2, stack_3, stack_4 } => {
                cells.push(148);
                cells.push(*stack_1);
                cells.push(*stack_2);
                cells.push(*stack_3);
                cells.push(*stack_4);
                proof {
                    assert(cells@ =~= old(cells)@ + self.encoding());
                }
            },
            Instruction::Push4Adr { stack_1, stack_2, stack_3, stack_4 } => {
                cells.push(149);
                cells.push(*stack_1);
                cells.push(*stack_2);
                cells.push(*stack_3);
                cells.push(*stack_4);
                proof {
                    assert(cells@ =~= old(cells)@ + self.encoding());
                }
            },
            Instruction::Push5C { const_1, const_2, const_3, const_4, const_5 } => {
                cells.push(150);
                cells.push(*const_1);
                cells.push(*const_2);
                cells.push(*const_3);
                cells.push(*const_4);
                cells.push(*const_5);
                proof {
                    assert(cells@ =~= old(cells)@ + self.encoding());
                }
            },
            Instruction::Push5 { addr_1, addr_2, addr_3, addr_4, addr_5 } => {
                cells.push(151);
                cells.push(*addr_1);
                cells.push(*addr_2);
                cells.push(*addr_3);
                cells.push(*addr_4);
                cells.push(*addr_5);
                proof {
                    assert(cells@ =~= old(cells)@ + self.encoding());
                }
            },
            Instruction::Push5S { stack_1, stack_2, stack_3, stack_4, stack_5 } => {
                cells.push(152);
                cells.push(*stack_1);
                cells.push(*stack_2);
                cells.push(*stack_3);
                cells.push(*stack_4);
                cells.push(*stack_5);
                proof {
                    assert(cells@ =~= old(cells)@ + self.encoding());
                }
            },
            Instruction::Push5Adr { stack_1, stack_2, stack_3, stack_4, stack_5 } => {
                cells.push(153);
                cells.push(*stack_1);
                cells.push(*stack_2);
                cells.push(*stack_3);
                cells.push(*stack_4);
                cells.push(*stack_5);
                proof {
                    assert(cells@ =~= old(cells)@ + self.encoding());
                }
            },
            Instruction::LoadBoth { addr_1, addr_2 } => {
                cells.push(154);
                cells.push(*addr_1);
                cells.push(*addr_2);
                proof {
                    assert(cells@ =~= old(cells)@ + self.encoding());
                }
            },
            Instruction::LoadSBoth { stack_1, stack_2 } => {
                cells.push(155);
                cells.push(*stack_1);
                cells.push(*stack_2);
                proof {
                    assert(cells@ =~= old(cells)@ + self.encoding());
                }
            },
            Instruction::Const { addr_1, const_1 } => {
                cells.push(156);
                cells.push(*addr_1);
                cells.push(*const_1);
                proof {
                    assert(cells@ =~= old(cells)@ + self.encoding());
                }
            },
            Instruction::ConstS { stack_1, const_1 } => {
                cells.push(157);
                cells.push(*stack_1);
                cells.push(*const_1);
                proof {
                    assert(cells@ =~= old(cells)@ + self.encoding());
                }
            },
            Instruction::TrackerPushC { const_1 } => {
                cells.push(160);
                cells.push(*const_1);
                proof {
                    assert(cells@ =~= old(cells)@ + self.encoding());
                }
            },
            Instruction::TrackerPopSetheap => {
                cells.push(161);
                proof {
                    assert(cells@ =~= old(cells)@ + self.encoding());
                }
            },
            Instruction::Genarray { const_1 } => {
                cells.push(162);
                cells.push(*const_1);
                proof {
                    assert(cells@ =~= old(cells)@ + self.encoding());
                }
            },
            Instruction::GenarrayZ { const_1 } => {
                cells.push(163);
                cells.push(*const_1);
                proof {
                    assert(cells@ =~= old(cells)@ + self.encoding());
                }
            },
            Instruction::StradjustPri => {
                cells.push(164);
                proof {
                    assert(cells@ =~= old(cells)@ + self.encoding());
                }
            },
            Instruction::Endproc => {
                cells.push(166);
                proof {
                    assert(cells@ =~= old(cells)@ + self.encoding());
                }
            },
            Instruction::InitarrayPri { addr_1, const_1, const_2, const_3, const_4 } => {
                cells.push(169);
                cells.push(*addr_1);
                cells.push(*const_1);
                cells.push(*const_2);
                cells.push(*const_3);
                cells.push(*const_4);
                proof {
                    assert(cells@ =~= old(cells)@ + self.encoding());
                }
            },
            Instruction::InitarrayAlt { addr_1, const_1, const_2, const_3, const_4 } => {
                cells.push(170);
                cells.push(*addr_1);
                cells.push(*const_1);
                cells.push(*const_2);
                cells.push(*const_3);
                cells.push(*const_4);
                proof {
                    assert(cells@ =~= old(cells)@ + self.encoding());
                }
            },
            Instruction::HeapSave => {
                cells.push(171);
                proof {
                    assert(cells@ =~= old(cells)@ + self.encoding());
                }
            },
            Instruction::HeapRestore => {
                cells.push(172);
                proof {
                    assert(cells@ =~= old(cells)@ + self.encoding());
                }
            },
            Instruction::Fabs => {
                cells.push(174);
                proof {
                    assert(cells@ =~= old(cells)@ + self.encoding());
                }
            },
            Instruction::Float => {
                cells.push(175);
                proof {
                    assert(cells@ =~= old(cells)@ + self.encoding());
                }
            },
            Instruction::Floatadd => {
                cells.push(176);
                proof {
                    assert(cells@ =~= old(cells)@ + self.encoding());
                }
            },
            Instruction::Floatsub => {
                cells.push(177);
                proof {
                    assert(cells@ =~= old(cells)@ + self.encoding());
                }
            },
            Instruction::Floatmul => {
                cells.push(178);
                proof {
                    assert(cells@ =~= old(cells)@ + self.encoding());
                }
            },
            Instruction::Floatdiv => {
                cells.push(179);
                proof {
                    assert(cells@ =~= old(cells)@ + self.encoding());
                }
            },
            Instruction::RndToNearest => {
                cells.push(180);
                proof {
                    assert(cells@ =~= old(cells)@ + self.encoding());
                }
            },
            Instruction::RndToFloor => {
                cells.push(181);
                proof {
                    assert(cells@ =~= old(cells)@ + self.encoding());
                }
            },
            Instruction::RndToCeil => {
                cells.push(182);
                proof {
                    assert(cells@ =~= old(cells)@ + self.encoding());
                }
            },
            Instruction::RndToZero => {
                cells.push(183);
                proof {
                    assert(cells@ =~= old(cells)@ + self.encoding());
                }
            },
            Instruction::Floatcmp => {
                cells.push(184);
                proof {
                    assert(cells@ =~= old(cells)@ + self.encoding());
                }
            },
            Instruction::FloatGt => {
                cells.push(185);
                proof {
                    assert(cells@ =~= old(cells)@ + self.encoding());
                }
            },
            Instruction::FloatGe => {
                cells.push(186);
                proof {
                    assert(cells@ =~= old(cells)@ + self.encoding());
                }
            },
            Instruction::FloatLt => {
                cells.push(187);
                proof {
                    assert(cells@ =~= old(cells)@ + self.encoding());
                }
            },
            Instruction::FloatLe => {
                cells.push(188);
                proof {
                    assert(cells@ =~= old(cells)@ + self.encoding());
                }
            },
            Instruction::FloatNe => {
                cells.push(189);
                proof {
                    assert(cells@ =~= old(cells)@ + self.encoding());
                }
            },
            Instruction::FloatEq => {
                cells.push(190);
                proof {
                    assert(cells@ =~= old(cells)@ + self.encoding());
                }
            },
            Instruction::FloatNot => {
                cells.push(191);
                proof {
                    assert(cells@ =~= old(cells)@ + self.encoding());
                }
            },
        }
    }
}


/// Decoding at the start of an instruction's own cells gives that
/// instruction back and stops right after its last operand.
#[verifier::spinoff_prover]
#[verifier::rlimit(100)]
pub proof fn lemma_instruction_round_trip(cells: Seq<i32>, pos: int, inst: Instruction)
    requires
        0 <= pos,
        pos + inst.encoding().len() <= cells.len(),
        cells.subrange(pos, pos + inst.encoding().len()) == inst.encoding(),
    ensures
        Instruction::spec_read(cells, pos) == Ok::<(Instruction, int), OpcodeError>(
            (inst, pos + inst.encoding().len()),
        ),
{
    match inst {
        Instruction::NoOp => {
            assert(cells.subrange(pos, pos + 1)[0] == cells[pos + 0]);
        },
        Instruction::LoadPri { offset } => {
            assert(cells.subrange(pos, pos + 2)[0] == cells[pos + 0]);
            assert(cells.subrange(pos, pos + 2)[1] == cells[pos + 1]);
        },
        Instruction::LoadAlt { offset } => {
            assert(cells.subrange(pos, pos + 2)[0] == cells[pos + 0]);
            assert(cells.subrange(pos, pos + 2)[1] == cells[pos + 1]);
        },
        Instruction::LoadSPri { offset } => {
            assert(cells.subrange(pos, pos + 2)[0] == cells[pos + 0]);
            assert(cells.subrange(pos, pos + 2)[1] == cells[pos + 1]);
        },
        Instruction::LoadSAlt { offset } => {
            assert(cells.subrange(pos, pos + 2)[0] == cells[pos + 0]);
            assert(cells.subrange(pos, pos + 2)[1] == cells[pos + 1]);
        },
        Instruction::LrefSPri { offset } => {
            assert(cells.subrange(pos, pos + 2)[0] == cells[pos + 0]);
            assert(cells.subrange(pos, pos + 2)[1] == cells[pos + 1]);
        },
        Instruction::LrefSAlt { offset } => {
            assert(cells.subrange(pos, pos + 2)[0] == cells[pos + 0]);
            assert(cells.subrange(pos, pos + 2)[1] == cells[pos + 1]);
        },
        Instruction::LoadI => {
            assert(cells.subrange(pos, pos + 1)[0] == cells[pos + 0]);
        },
        Instruction::LodbI { width } => {
            assert(cells.subrange(pos, pos + 2)[0] == cells[pos + 0]);
            assert(cells.subrange(pos, pos + 2)[1] == cells[pos + 1]);
        },
        Instruction::ConstPri { value } => {
            assert(cells.subrange(pos, pos + 2)[0] == cells[pos + 0]);
            assert(cells.subrange(pos, pos + 2)[1] == cells[pos + 1]);
        },
        Instruction::ConstAlt { value } => {
            assert(cells.subrange(pos, pos + 2)[0] == cells[pos + 0]);
            assert(cells.subrange(pos, pos + 2)[1] == cells[pos + 1]);
        },
        Instruction::AddrPri { offset } => {
            assert(cells.subrange(pos, pos + 2)[0] == cells[pos + 0]);
            assert(cells.subrange(pos, pos + 2)[1] == cells[pos + 1]);
        },
        Instruction::AddrAlt { offset } => {
            assert(cells.subrange(pos, pos + 2)[0] == cells[pos + 0]);
            assert(cells.subrange(pos, pos + 2)[1] == cells[pos + 1]);
        },
        Instruction::StorPri { offset } => {
            assert(cells.subrange(pos, pos + 2)[0] == cells[pos + 0]);
            assert(cells.subrange(pos, pos + 2)[1] == cells[pos + 1]);
        },
        Instruction::StorAlt { offset } => {
            assert(cells.subrange(pos, pos + 2)[0] == cells[pos + 0]);
            assert(cells.subrange(pos, pos + 2)[1] == cells[pos + 1]);
        },
        Instruction::StorSPri { offset } => {
            assert(cells.subrange(pos, pos + 2)[0] == cells[pos + 0]);
            assert(cells.subrange(pos, pos + 2)[1] == cells[pos + 1]);
        },
        Instruction::StorSAlt { offset } => {
            assert(cells.subrange(pos, pos + 2)[0] == cells[pos + 0]);
            assert(cells.subrange(pos, pos + 2)[1] == cells[pos + 1]);
        },
        Instruction::SrefSPri { offset } => {
            assert(cells.subrange(pos, pos + 2)[0] == cells[pos + 0]);
            assert(cells.subrange(pos, pos + 2)[1] == cells[pos + 1]);
        },
        Instruction::SrefSAlt { offset } => {
            assert(cells.subrange(pos, pos + 2)[0] == cells[pos + 0]);
            assert(cells.subrange(pos, pos + 2)[1] == cells[pos + 1]);
        },
        Instruction::StorI => {
            assert(cells.subrange(pos, pos + 1)[0] == cells[pos + 0]);
        },
        Instruction::StrbI { width } => {
            assert(cells.subrange(pos, pos + 2)[0] == cells[pos + 0]);
            assert(cells.subrange(pos, pos + 2)[1] == cells[pos + 1]);
        },
        Instruction::Lidx => {
            assert(cells.subrange(pos, pos + 1)[0] == cells[pos + 0]);
        },
        Instruction::Idxaddr => {
            assert(cells.subrange(pos, pos + 1)[0] == cells[pos + 0]);
        },
        Instruction::MovePri => {
            assert(cells.subrange(pos, pos + 1)[0] == cells[pos + 0]);
        },
        Instruction::MoveAlt => {
            assert(cells.subrange(pos, pos + 1)[0] == cells[pos + 0]);
        },
        Instruction::Xchg => {
            assert(cells.subrange(pos, pos + 1)[0] == cells[pos + 0]);
        },
        Instruction::PushPri => {
            assert(cells.subrange(pos, pos + 1)[0] == cells[pos + 0]);
        },
        Instruction::PushAlt => {
            assert(cells.subrange(pos, pos + 1)[0] == cells[pos + 0]);
        },
        Instruction::PushC { const_1 } => {
            assert(cells.subrange(pos, pos + 2)[0] == cells[pos + 0]);
            assert(cells.subrange(pos, pos + 2)[1] == cells[pos + 1]);
        },
        Instruction::Push { addr_1 } => {
            assert(cells.subrange(pos, pos + 2)[0] == cells[pos + 0]);
            assert(cells.subrange(pos, pos + 2)[1] == cells[pos + 1]);
        },
        Instruction::PushS { stack_1 } => {
            assert(cells.subrange(pos, pos + 2)[0] == cells[pos + 0]);
            assert(cells.subrange(pos, pos + 2)[1] == cells[pos + 1]);
        },
        Instruction::PopPri => {
            assert(cells.subrange(pos, pos + 1)[0] == cells[pos + 0]);
        },
        Instruction::PopAlt => {
            assert(cells.subrange(pos, pos + 1)[0] == cells[pos + 0]);
        },
        Instruction::Stack { const_1 } => {
            assert(cells.subrange(pos, pos + 2)[0] == cells[pos + 0]);
            assert(cells.subrange(pos, pos + 2)[1] == cells[pos + 1]);
        },
        Instruction::Heap { const_1 } => {
            assert(cells.subrange(pos, pos + 2)[0] == cells[pos + 0]);
            assert(cells.subrange(pos, pos + 2)[1] == cells[pos + 1]);
        },
        Instruction::Proc => {
            assert(cells.subrange(pos, pos + 1)[0] == cells[pos + 0]);
        },
        Instruction::Retn => {
            assert(cells.subrange(pos, pos + 1)[0] == cells[pos + 0]);
        },
        Instruction::Call { func_1 } => {
            assert(cells.subrange(pos, pos + 2)[0] == cells[pos + 0]);
            assert(cells.subrange(pos, pos + 2)[1] == cells[pos + 1]);
        },
        Instruction::Jump { jump_1 } => {
            assert(cells.subrange(pos, pos + 2)[0] == cells[pos + 0]);
            assert(cells.subrange(pos, pos + 2)[1] == cells[pos + 1]);
        },
        Instruction::Jzer { jump_1 } => {
            assert(cells.subrange(pos, pos + 2)[0] == cells[pos + 0]);
            assert(cells.subrange(pos, pos + 2)[1] == cells[pos + 1]);
        },
        Instruction::Jnz { jump_1 } => {
            assert(cells.subrange(pos, pos + 2)[0] == cells[pos + 0]);
            assert(cells.subrange(pos, pos + 2)[1] == cells[pos + 1]);
        },
        Instruction::Jeq { jump_1 } => {
            assert(cells.subrange(pos, pos + 2)[0] == cells[pos + 0]);
            assert(cells.subrange(pos, pos + 2)[1] == cells[pos + 1]);
        },
        Instruction::Jneq { jump_1 } => {
            assert(cells.subrange(pos, pos + 2)[0] == cells[pos + 0]);
            assert(cells.subrange(pos, pos + 2)[1] == cells[pos + 1]);
        },
        Instruction::Jsless { jump_1 } => {
            assert(cells.subrange(pos, pos + 2)[0] == cells[pos + 0]);
            assert(cells.subrange(pos, pos + 2)[1] == cells[pos + 1]);
        },
        Instruction::Jsleq { jump_1 } => {
            assert(cells.subrange(pos, pos + 2)[0] == cells[pos + 0]);
            assert(cells.subrange(pos, pos + 2)[1] == cells[pos + 1]);
        },
        Instruction::Jsgrtr { jump_1 } => {
            assert(cells.subrange(pos, pos + 2)[0] == cells[pos + 0]);
            assert(cells.subrange(pos, pos + 2)[1] == cells[pos + 1]);
        },
        Instruction::Jsgeq { jump_1 } => {
            assert(cells.subrange(pos, pos + 2)[0] == cells[pos + 0]);
            assert(cells.subrange(pos, pos + 2)[1] == cells[pos + 1]);
        },
        Instruction::Shl => {
            assert(cells.subrange(pos, pos + 1)[0] == cells[pos + 0]);
        },
        Instruction::Shr => {
            assert(cells.subrange(pos, pos + 1)[0] == cells[pos + 0]);
        },
        Instruction::Sshr => {
            assert(cells.subrange(pos, pos + 1)[0] == cells[pos + 0]);
        },
        Instruction::ShlCPri { const_1 } => {
            assert(cells.subrange(pos, pos + 2)[0] == cells[pos + 0]);
            assert(cells.subrange(pos, pos + 2)[1] == cells[pos + 1]);
        },
        Instruction::ShlCAlt { const_1 } => {
            assert(cells.subrange(pos, pos + 2)[0] == cells[pos + 0]);
            assert(cells.subrange(pos, pos + 2)[1] == cells[pos + 1]);
        },
        Instruction::Smul => {
            assert(cells.subrange(pos, pos + 1)[0] == cells[pos + 0]);
        },
        Instruction::Sdiv => {
            assert(cells.subrange(pos, pos + 1)[0] == cells[pos + 0]);
        },
        Instruction::SdivAlt => {
            assert(cells.subrange(pos, pos + 1)[0] == cells[pos + 0]);
        },
        Instruction::Add => {
            assert(cells.subrange(pos, pos + 1)[0] == cells[pos + 0]);
        },
        Instruction::Sub => {
            assert(cells.subrange(pos, pos + 1)[0] == cells[pos + 0]);
        },
        Instruction::SubAlt => {
            assert(cells.subrange(pos, pos + 1)[0] == cells[pos + 0]);
        },
        Instruction::And => {
            assert(cells.subrange(pos, pos + 1)[0] == cells[pos + 0]);
        },
        Instruction::Or => {
            assert(cells.subrange(pos, pos + 1)[0] == cells[pos + 0]);
        },
        Instruction::Xor => {
            assert(cells.subrange(pos, pos + 1)[0] == cells[pos + 0]);
        },
        Instruction::Not => {
            assert(cells.subrange(pos, pos + 1)[0] == cells[pos + 0]);
        },
        Instruction::Neg => {
            assert(cells.subrange(pos, pos + 1)[0] == cells[pos + 0]);
        },
        Instruction::Invert => {
            assert(cells.subrange(pos, pos + 1)[0] == cells[pos + 0]);
        },
        Instruction::AddC { const_1 } => {
            assert(cells.subrange(pos, pos + 2)[0] == cells[pos + 0]);
            assert(cells.subrange(pos, pos + 2)[1] == cells[pos + 1]);
        },
        Instruction::SmulC { const_1 } => {
            assert(cells.subrange(pos, pos + 2)[0] == cells[pos + 0]);
            assert(cells.subrange(pos, pos + 2)[1] == cells[pos + 1]);
        },
        Instruction::ZeroPri => {
            assert(cells.subrange(pos, pos + 1)[0] == cells[pos + 0]);
        },
        Instruction::ZeroAlt => {
            assert(cells.subrange(pos, pos + 1)[0] == cells[pos + 0]);
        },
        Instruction::Zero { addr_1 } => {
            assert(cells.subrange(pos, pos + 2)[0] == cells[pos + 0]);
            assert(cells.subrange(pos, pos + 2)[1] == cells[pos + 1]);
        },
        Instruction::ZeroS { stack_1 } => {
            assert(cells.subrange(pos, pos + 2)[0] == cells[pos + 0]);
            assert(cells.subrange(pos, pos + 2)[1] == cells[pos + 1]);
        },
        Instruction::Eq => {
            assert(cells.subrange(pos, pos + 1)[0] == cells[pos + 0]);
        },
        Instruction::Neq => {
            assert(cells.subrange(pos, pos + 1)[0] == cells[pos + 0]);
        },
        Instruction::Sless => {
            assert(cells.subrange(pos, pos + 1)[0] == cells[pos + 0]);
        },
        Instruction::Sleq => {
            assert(cells.subrange(pos, pos + 1)[0] == cells[pos + 0]);
        },
        Instruction::Sgrtr => {
            assert(cells.subrange(pos, pos + 1)[0] == cells[pos + 0]);
        },
        Instruction::Sgeq => {
            assert(cells.subrange(pos, pos + 1)[0] == cells[pos + 0]);
        },
        Instruction::EqCPri { const_1 } => {
            assert(cells.subrange(pos, pos + 2)[0] == cells[pos + 0]);
            assert(cells.subrange(pos, pos + 2)[1] == cells[pos + 1]);
        },
        Instruction::EqCAlt { const_1 } => {
            assert(cells.subrange(pos, pos + 2)[0] == cells[pos + 0]);
            assert(cells.subrange(pos, pos + 2)[1] == cells[pos + 1]);
        },
        Instruction::IncPri => {
            assert(cells.subrange(pos, pos + 1)[0] == cells[pos + 0]);
        },
        Instruction::IncAlt => {
            assert(cells.subrange(pos, pos + 1)[0] == cells[pos + 0]);
        },
        Instruction::Inc { addr_1 } => {
            assert(cells.subrange(pos, pos + 2)[0] == cells[pos + 0]);
            assert(cells.subrange(pos, pos + 2)[1] == cells[pos + 1]);
        },
        Instruction::IncS { stack_1 } => {
            assert(cells.subrange(pos, pos + 2)[0] == cells[pos + 0]);
            assert(cells.subrange(pos, pos + 2)[1] == cells[pos + 1]);
        },
        Instruction::IncI => {
            assert(cells.subrange(pos, pos + 1)[0] == cells[pos + 0]);
        },
        Instruction::DecPri => {
            assert(cells.subrange(pos, pos + 1)[0] == cells[pos + 0]);
        },
        Instruction::DecAlt => {
            assert(cells.subrange(pos, pos + 1)[0] == cells[pos + 0]);
        },
        Instruction::Dec { addr_1 } => {
            assert(cells.subrange(pos, pos + 2)[0] == cells[pos + 0]);
            assert(cells.subrange(pos, pos + 2)[1] == cells[pos + 1]);
        },
        Instruction::DecS { stack_1 } => {
            assert(cells.subrange(pos, pos + 2)[0] == cells[pos + 0]);
            assert(cells.subrange(pos, pos + 2)[1] == cells[pos + 1]);
        },
        Instruction::DecI => {
            assert(cells.subrange(pos, pos + 1)[0] == cells[pos + 0]);
        },
        Instruction::Movs { const_1 } => {
            assert(cells.subrange(pos, pos + 2)[0] == cells[pos + 0]);
            assert(cells.subrange(pos, pos + 2)[1] == cells[pos + 1]);
        },
        Instruction::Fill { const_1 } => {
            assert(cells.subrange(pos, pos + 2)[0] == cells[pos + 0]);
            assert(cells.subrange(pos, pos + 2)[1] == cells[pos + 1]);
        },
        Instruction::Halt { const_1 } => {
            assert(cells.subrange(pos, pos + 2)[0] == cells[pos + 0]);
            assert(cells.subrange(pos, pos + 2)[1] == cells[pos + 1]);
        },
        Instruction::Bounds { const_1 } => {
            assert(cells.subrange(pos, pos + 2)[0] == cells[pos + 0]);
            assert(cells.subrange(pos, pos + 2)[1] == cells[pos + 1]);
        },
        Instruction::SysreqC { native_1 } => {
            assert(cells.subrange(pos, pos + 2)[0] == cells[pos + 0]);
            assert(cells.subrange(pos, pos + 2)[1] == cells[pos + 1]);
        },
        Instruction::Switch { jump_1 } => {
            assert(cells.subrange(pos, pos + 2)[0] == cells[pos + 0]);
            assert(cells.subrange(pos, pos + 2)[1] == cells[pos + 1]);
        },
        Instruction::Casetbl { const_1, jump_1 } => {
            assert(cells.subrange(pos, pos + 3)[0] == cells[pos + 0]);
            assert(cells.subrange(pos, pos + 3)[1] == cells[pos + 1]);
            assert(cells.subrange(pos, pos + 3)[2] == cells[pos + 2]);
        },
        Instruction::SwapPri => {
            assert(cells.subrange(pos, pos + 1)[0] == cells[pos + 0]);
        },
        Instruction::SwapAlt => {
            assert(cells.subrange(pos, pos + 1)[0] == cells[pos + 0]);
        },
        Instruction::PushAdr { stack_1 } => {
            assert(cells.subrange(pos, pos + 2)[0] == cells[pos + 0]);
            assert(cells.subrange(pos, pos + 2)[1] == cells[pos + 1]);
        },
        Instruction::Nop => {
            assert(cells.subrange(pos, pos + 1)[0] == cells[pos + 0]);
        },
        Instruction::SysreqN { native, n_args } => {
            assert(cells.subrange(pos, pos + 3)[0] == cells[pos + 0]);
            assert(cells.subrange(pos, pos + 3)[1] == cells[pos + 1]);
            assert(cells.subrange(pos, pos + 3)[2] == cells[pos + 2]);
        },
        Instruction::Break => {
            assert(cells.subrange(pos, pos + 1)[0] == cells[pos + 0]);
        },
        Instruction::Push2C { const_1, const_2 } => {
            assert(cells.subrange(pos, pos + 3)[0] == cells[pos + 0]);
            assert(cells.subrange(pos, pos + 3)[1] == cells[pos + 1]);
            assert(cells.subrange(pos, pos + 3)[2] == cells[pos + 2]);
        },
        Instruction::Push2 { addr_1, addr_2 } => {
            assert(cells.subrange(pos, pos + 3)[0] == cells[pos + 0]);
            assert(cells.subrange(pos, pos + 3)[1] == cells[pos + 1]);
            assert(cells.subrange(pos, pos + 3)[2] == cells[pos + 2]);
        },
        Instruction::Push2S { stack_1, stack_2 } => {
            assert(cells.subrange(pos, pos + 3)[0] == cells[pos + 0]);
            assert(cells.subrange(pos, pos + 3)[1] == cells[pos + 1]);
            assert(cells.subrange(pos, pos + 3)[2] == cells[pos + 2]);
        },
        Instruction::Push2Adr { stack_1, stack_2 } => {
            assert(cells.subrange(pos, pos + 3)[0] == cells[pos + 0]);
            assert(cells.subrange(pos, pos + 3)[1] == cells[pos + 1]);
            assert(cells.subrange(pos, pos + 3)[2] == cells[pos + 2]);
        },
        Instruction::Push3C { const_1, const_2, const_3 } => {
            assert(cells.subrange(pos, pos + 4)[0] == cells[pos + 0]);
            assert(cells.subrange(pos, pos + 4)[1] == cells[pos + 1]);
            assert(cells.subrange(pos, pos + 4)[2] == cells[pos + 2]);
            assert(cells.subrange(pos, pos + 4)[3] == cells[pos + 3]);
        },
        Instruction::Push3 { addr_1, addr_2, addr_3 } => {
            assert(cells.subrange(pos, pos + 4)[0] == cells[pos + 0]);
            assert(cells.subrange(pos, pos + 4)[1] == cells[pos + 1]);
            assert(cells.subrange(pos, pos + 4)[2] == cells[pos + 2]);
            assert(cells.subrange(pos, pos + 4)[3] == cells[pos + 3]);
        },
        Instruction::Push3S { stack_1, stack_2, stack_3 } => {
            assert(cells.subrange(pos, pos + 4)[0] == cells[pos + 0]);
            assert(cells.subrange(pos, pos + 4)[1] == cells[pos + 1]);
            assert(cells.subrange(pos, pos + 4)[2] == cells[pos + 2]);
            assert(cells.subrange(pos, pos + 4)[3] == cells[pos + 3]);
        },
        Instruction::Push3Adr { stack_1, stack_2, stack_3 } => {
            assert(cells.subrange(pos, pos + 4)[0] == cells[pos + 0]);
            assert(cells.subrange(pos, pos + 4)[1] == cells[pos + 1]);
            assert(cells.subrange(pos, pos + 4)[2] == cells[pos + 2]);
            assert(cells.subrange(pos, pos + 4)[3] == cells[pos + 3]);
        },
        Instruction::Push4C { const_1, const_2, const_3, const_4 } => {
            assert(cells.subrange(pos, pos + 5)[0] == cells[pos + 0]);
            assert(cells.subrange(pos, pos + 5)[1] == cells[pos + 1]);
            assert(cells.subrange(pos, pos + 5)[2] == cells[pos + 2]);
            assert(cells.subrange(pos, pos + 5)[3] == cells[pos + 3]);
            assert(cells.subrange(pos, pos + 5)[4] == cells[pos + 4]);
        },
        Instruction::Push4 { addr_1, addr_2, addr_3, addr_4 } => {
            assert(cells.subrange(pos, pos + 5)[0] == cells[pos + 0]);
            assert(cells.subrange(pos, pos + 5)[1] == cells[pos + 1]);
            assert(cells.subrange(pos, pos + 5)[2] == cells[pos + 2]);
            assert(cells.subrange(pos, pos + 5)[3] == cells[pos + 3]);
            assert(cells.subrange(pos, pos + 5)[4] == cells[pos + 4]);
        },
        Instruction::Push4S { stack_1, stack_2, stack_3, stack_4 } => {
            assert(cells.subrange(pos, pos + 5)[0] == cells[pos + 0]);
            assert(cells.subrange(pos, pos + 5)[1] == cells[pos + 1]);
            assert(cells.subrange(pos, pos + 5)[2] == cells[pos + 2]);
            assert(cells.subrange(pos, pos + 5)[3] == cells[pos + 3]);
            assert(cells.subrange(pos, pos + 5)[4] == cells[pos + 4]);
        },
        Instruction::Push4Adr { stack_1, stack_2, stack_3, stack_4 } => {
            assert(cells.subrange(pos, pos + 5)[0] == cells[pos + 0]);
            assert(cells.subrange(pos, pos + 5)[1] == cells[pos + 1]);
            assert(cells.subrange(pos, pos + 5)[2] == cells[pos + 2]);
            assert(cells.subrange(pos, pos + 5)[3] == cells[pos + 3]);
            assert(cells.subrange(pos, pos + 5)[4] == cells[pos + 4]);
        },
        Instruction::Push5C { const_1, const_2, const_3, const_4, const_5 } => {
            assert(cells.subrange(pos, pos + 6)[0] == cells[pos + 0]);
            assert(cells.subrange(pos, pos + 6)[1] == cells[pos + 1]);
            assert(cells.subrange(pos, pos + 6)[2] == cells[pos + 2]);
            assert(cells.subrange(pos, pos + 6)[3] == cells[pos + 3]);
            assert(cells.subrange(pos, pos + 6)[4] == cells[pos + 4]);
            assert(cells.subrange(pos, pos + 6)[5] == cells[pos + 5]);
        },
        Instruction::Push5 { addr_1, addr_2, addr_3, addr_4, addr_5 } => {
            assert(cells.subrange(pos, pos + 6)[0] == cells[pos + 0]);
            assert(cells.subrange(pos, pos + 6)[1] == cells[pos + 1]);
            assert(cells.subrange(pos, pos + 6)[2] == cells[pos + 2]);
            assert(cells.subrange(pos, pos + 6)[3] == cells[pos + 3]);
            assert(cells.subrange(pos, pos + 6)[4] == cells[pos + 4]);
            assert(cells.subrange(pos, pos + 6)[5] == cells[pos + 5]);
        },
        Instruction::Push5S { stack_1, stack_2, stack_3, stack_4, stack_5 } => {
            assert(cells.subrange(pos, pos + 6)[0] == cells[pos + 0]);
            assert(cells.subrange(pos, pos + 6)[1] == cells[pos + 1]);
            assert(cells.subrange(pos, pos + 6)[2] == cells[pos + 2]);
            assert(cells.subrange(pos, pos + 6)[3] == cells[pos + 3]);
            assert(cells.subrange(pos, pos + 6)[4] == cells[pos + 4]);
            assert(cells.subrange(pos, pos + 6)[5] == cells[pos + 5]);
        },
        Instruction::Push5Adr { stack_1, stack_2, stack_3, stack_4, stack_5 } => {
            assert(cells.subrange(pos, pos + 6)[0] == cells[pos + 0]);
            assert(cells.subrange(pos, pos + 6)[1] == cells[pos + 1]);
            assert(cells.subrange(pos, pos + 6)[2] == cells[pos + 2]);
            assert(cells.subrange(pos, pos + 6)[3] == cells[pos + 3]);
            assert(cells.subrange(pos, pos + 6)[4] == cells[pos + 4]);
            assert(cells.subrange(pos, pos + 6)[5] == cells[pos + 5]);
        },
        Instruction::LoadBoth { addr_1, addr_2 } => {
            assert(cells.subrange(pos, pos + 3)[0] == cells[pos + 0]);
            assert(cells.subrange(pos, pos + 3)[1] == cells[pos + 1]);
            assert(cells.subrange(pos, pos + 3)[2] == cells[pos + 2]);
        },
        Instruction::LoadSBoth { stack_1, stack_2 } => {
            assert(cells.subrange(pos, pos + 3)[0] == cells[pos + 0]);
            assert(cells.subrange(pos, pos + 3)[1] == cells[pos + 1]);
            assert(cells.subrange(pos, pos + 3)[2] == cells[pos + 2]);
        },
        Instruction::Const { addr_1, const_1 } => {
            assert(cells.subrange(pos, pos + 3)[0] == cells[pos + 0]);
            assert(cells.subrange(pos, pos + 3)[1] == cells[pos + 1]);
            assert(cells.subrange(pos, pos + 3)[2] == cells[pos + 2]);
        },
        Instruction::ConstS { stack_1, const_1 } => {
            assert(cells.subrange(pos, pos + 3)[0] == cells[pos + 0]);
            assert(cells.subrange(pos, pos + 3)[1] == cells[pos + 1]);
            assert(cells.subrange(pos, pos + 3)[2] == cells[pos + 2]);
        },
        Instruction::TrackerPushC { const_1 } => {
            assert(cells.subrange(pos, pos + 2)[0] == cells[pos + 0]);
            assert(cells.subrange(pos, pos + 2)[1] == cells[pos + 1]);
        },
        Instruction::TrackerPopSetheap => {
            assert(cells.subrange(pos, pos + 1)[0] == cells[pos + 0]);
        },
        Instruction::Genarray { const_1 } => {
            assert(cells.subrange(pos, pos + 2)[0] == cells[pos + 0]);
            assert(cells.subrange(pos, pos + 2)[1] == cells[pos + 1]);
        },
        Instruction::GenarrayZ { const_1 } => {
            assert(cells.subrange(pos, pos + 2)[0] == cells[pos + 0]);
            assert(cells.subrange(pos, pos + 2)[1] == cells[pos + 1]);
        },
        Instruction::StradjustPri => {
            assert(cells.subrange(pos, pos + 1)[0] == cells[pos + 0]);
        },
        Instruction::Endproc => {
            assert(cells.subrange(pos, pos + 1)[0] == cells[pos + 0]);
        },
        Instruction::InitarrayPri { addr_1, const_1, const_2, const_3, const_4 } => {
            assert(cells.subrange(pos, pos + 6)[0] == cells[pos + 0]);
            assert(cells.subrange(pos, pos + 6)[1] == cells[pos + 1]);
            assert(cells.subrange(pos, pos + 6)[2] == cells[pos + 2]);
            assert(cells.subrange(pos, pos + 6)[3] == cells[pos + 3]);
            assert(cells.subrange(pos, pos + 6)[4] == cells[pos + 4]);
            assert(cells.subrange(pos, pos + 6)[5] == cells[pos + 5]);
        },
        Instruction::InitarrayAlt { addr_1, const_1, const_2, const_3, const_4 } => {
            assert(cells.subrange(pos, pos + 6)[0] == cells[pos + 0]);
            assert(cells.subrange(pos, pos + 6)[1] == cells[pos + 1]);
            assert(cells.subrange(pos, pos + 6)[2] == cells[pos + 2]);
            assert(cells.subrange(pos, pos + 6)[3] == cells[pos + 3]);
            assert(cells.subrange(pos, pos + 6)[4] == cells[pos + 4]);
            assert(cells.subrange(pos, pos + 6)[5] == cells[pos + 5]);
        },
        Instruction::HeapSave => {
            assert(cells.subrange(pos, pos + 1)[0] == cells[pos + 0]);
        },
        Instruction::HeapRestore => {
            assert(cells.subrange(pos, pos + 1)[0] == cells[pos + 0]);
        },
        Instruction::Fabs => {
            assert(cells.subrange(pos, pos + 1)[0] == cells[pos + 0]);
        },
        Instruction::Float => {
            assert(cells.subrange(pos, pos + 1)[0] == cells[pos + 0]);
        },
        Instruction::Floatadd => {
            assert(cells.subrange(pos, pos + 1)[0] == cells[pos + 0]);
        },
        Instruction::Floatsub => {
            assert(cells.subrange(pos, pos + 1)[0] == cells[pos + 0]);
        },
        Instruction::Floatmul => {
            assert(cells.subrange(pos, pos + 1)[0] == cells[pos + 0]);
        },
        Instruction::Floatdiv => {
            assert(cells.subrange(pos, pos + 1)[0] == cells[pos + 0]);
        },
        Instruction::RndToNearest => {
            assert(cells.subrange(pos, pos + 1)[0] == cells[pos + 0]);
        },
        Instruction::RndToFloor => {
            assert(cells.subrange(pos, pos + 1)[0] == cells[pos + 0]);
        },
        Instruction::RndToCeil => {
            assert(cells.subrange(pos, pos + 1)[0] == cells[pos + 0]);
        },
        Instruction::RndToZero => {
            assert(cells.subrange(pos, pos + 1)[0] == cells[pos + 0]);
        },
        Instruction::Floatcmp => {
            assert(cells.subrange(pos, pos + 1)[0] == cells[pos + 0]);
        },
        Instruction::FloatGt => {
            assert(cells.subrange(pos, pos + 1)[0] == cells[pos + 0]);
        },
        Instruction::FloatGe => {
            assert(cells.subrange(pos, pos + 1)[0] == cells[pos + 0]);
        },
        Instruction::FloatLt => {
            assert(cells.subrange(pos, pos + 1)[0] == cells[pos + 0]);
        },
        Instruction::FloatLe => {
            assert(cells.subrange(pos, pos + 1)[0] == cells[pos + 0]);
        },
        Instruction::FloatNe => {
            assert(cells.subrange(pos, pos + 1)[0] == cells[pos + 0]);
        },
        Instruction::FloatEq => {
            assert(cells.subrange(pos, pos + 1)[0] == cells[pos + 0]);
        },
        Instruction::FloatNot => {
            assert(cells.subrange(pos, pos + 1)[0] == cells[pos + 0]);
        },
    }
}

} // verus!
