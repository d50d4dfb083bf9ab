//! The CPU: composes the memory, the display and the decoder; owns the
//! registers, program counter, call stack and timers; exposes `execute`
//! (one fetch-decode-apply step) and `timer_tick`.

use vstd::prelude::*;

use crate::Fault;
use crate::decoder;
use crate::hex::{
    all_ascii, ascii_to_string, chars_of, hex1_upper, hex2_upper, hex4_upper, push_hex1_upper,
    push_hex2_upper, push_hex4_upper, push_lit,
};
use crate::decoder::Instruction;
use crate::gpu;
use crate::gpu::{Collision, Gpu, FB_LEN, HEIGHT, WIDTH};
use crate::memory::{overwrite, Memory, MEM_SIZE};

verus! {

/// The address where loaded programs begin; below it sits glyph data.
pub const PROGRAM_START: u16 = 0x200;

/// The four ways one step can advance the program counter.
#[derive(Clone, Copy, Debug, PartialEq, Eq, Structural)]
pub enum PcOp {
    /// The default for non-branching instructions: two bytes onward.
    Inc,
    /// A blocked wait-for-key: the same instruction runs again next step.
    Stay,
    /// A conditional skip whose condition held: four bytes onward.
    SkipNext,
    /// Jump, call, return and indexed jump set the counter directly.
    JumpAddr(u16),
}

/// What to do when the program counter repeats across two consecutive
/// non-blocked steps: halt with a fault, or carry on silently.
#[derive(Clone, Copy, Debug, PartialEq, Eq, Structural)]
pub enum StuckPolicy {
    Fatal,
    Ignore,
}

/// The whole machine state as mathematics: the sixteen registers, the index
/// register, the two timers, the program counter and its previous value,
/// the call stack, the stuck-counter policy, the memory bytes and the
/// display pixels.
#[verifier::ext_equal]
pub struct CpuState {
    pub regs: Seq<u8>,
    pub i: u16,
    pub dt: u8,
    pub st: u8,
    pub pc: u16,
    pub stack: Seq<u16>,
    pub prev_pc: u16,
    pub policy: StuckPolicy,
    pub mem: Seq<u8>,
    pub fb: Seq<bool>,
}

/// The dimensions every reachable machine state keeps.
pub open spec fn wf_state(s: CpuState) -> bool {
    &&& s.regs.len() == 16
    &&& s.mem.len() == MEM_SIZE
    &&& s.fb.len() == FB_LEN
}

/// The big-endian 16-bit word at `addr`.
pub open spec fn word_at(mem: Seq<u8>, addr: int) -> u16 {
    (mem[addr] * 256 + mem[addr + 1]) as u16
}

/// The machine state as first constructed over the given memory and display.
pub open spec fn initial_cpu(mem: Seq<u8>, fb: Seq<bool>) -> CpuState {
    CpuState {
        regs: Seq::new(16, |r: int| 0u8),
        i: 0,
        dt: 0,
        st: 0,
        pc: PROGRAM_START,
        stack: Seq::empty(),
        prev_pc: 0,
        policy: StuckPolicy::Fatal,
        mem,
        fb,
    }
}

/// The fatal condition an instruction's own effect would hit, checked
/// before anything is mutated: a return with an empty stack, a memory block
/// operation running past the 4096 bytes, or a sprite draw whose origin or
/// extent fails the display's range check.
pub open spec fn instr_fault(s: CpuState, i: Instruction) -> Option<Fault> {
    match i {
        Instruction::Return => if s.stack.len() == 0 {
            Some(Fault::StackUnderflow)
        } else {
            None
        },
        Instruction::StoreRegsVx(x) => if s.i + x >= MEM_SIZE {
            Some(Fault::MemoryBoundsFault)
        } else {
            None
        },
        Instruction::LoadRegsVx(x) => if s.i + x >= MEM_SIZE {
            Some(Fault::MemoryBoundsFault)
        } else {
            None
        },
        Instruction::LoadBVx(_x) => if s.i + 2 >= MEM_SIZE {
            Some(Fault::MemoryBoundsFault)
        } else {
            None
        },
        Instruction::DisplaySpriteVxVyNibble(x, y, n) => if n > 0 && s.i + n - 1 >= MEM_SIZE {
            Some(Fault::MemoryBoundsFault)
        } else if n > 0 && (s.regs[x as int] >= WIDTH || s.regs[y as int] + n > HEIGHT) {
            Some(Fault::DisplayBoundsFault)
        } else {
            None
        },
        _ => None,
    }
}

/// An instruction's effect on everything but the program counter, paired
/// with how the counter should then advance. Defined for states where
/// `instr_fault` found nothing.
pub open spec fn instr_effect(s: CpuState, i: Instruction, keys: Seq<u8>, rnd: u8) -> (
    CpuState,
    PcOp,
) {
    match i {
        Instruction::ClearDisplay => (
            CpuState { fb: Seq::new(FB_LEN as nat, |j: int| false), ..s },
            PcOp::Inc,
        ),
        Instruction::Return => (
            CpuState { stack: s.stack.drop_last(), ..s },
            PcOp::JumpAddr(s.stack.last()),
        ),
        Instruction::Jump(a) => (s, PcOp::JumpAddr(a)),
        Instruction::JumpV0Addr(a) => (s, PcOp::JumpAddr((s.regs[0] + a) as u16)),
        Instruction::Call(a) => (
            CpuState { stack: s.stack.push((s.pc + 2) as u16), ..s },
            PcOp::JumpAddr(a),
        ),
        Instruction::SkipEqVxByte(x, b) => (
            s,
            if s.regs[x as int] == b {
                PcOp::SkipNext
            } else {
                PcOp::Inc
            },
        ),
        Instruction::SkipNeqVxByte(x, b) => (
            s,
            if s.regs[x as int] != b {
                PcOp::SkipNext
            } else {
                PcOp::Inc
            },
        ),
        Instruction::SkipEqVxVy(x, y) => (
            s,
            if s.regs[x as int] == s.regs[y as int] {
                PcOp::SkipNext
            } else {
                PcOp::Inc
            },
        ),
        Instruction::SkipNeqVxVy(x, y) => (
            s,
            if s.regs[x as int] != s.regs[y as int] {
                PcOp::SkipNext
            } else {
                PcOp::Inc
            },
        ),
        Instruction::LoadVxByte(x, b) => (
            CpuState { regs: s.regs.update(x as int, b), ..s },
            PcOp::Inc,
        ),
        Instruction::LoadVxVy(x, y) => (
            CpuState { regs: s.regs.update(x as int, s.regs[y as int]), ..s },
            PcOp::Inc,
        ),
        Instruction::LoadIAddr(a) => (CpuState { i: a, ..s }, PcOp::Inc),
        Instruction::StoreRegsVx(x) => (
            CpuState { mem: overwrite(s.mem, s.i as int, s.regs.take(x + 1)), ..s },
            PcOp::Inc,
        ),
        Instruction::LoadRegsVx(x) => (
            CpuState {
                regs: Seq::new(
                    16,
                    |r: int| if r <= x { s.mem[s.i + r] } else { s.regs[r] },
                ),
                ..s
            },
            PcOp::Inc,
        ),
        Instruction::LoadBVx(x) => (
            CpuState {
                mem: s.mem.update(s.i as int, (s.regs[x as int] / 100) as u8).update(
                    s.i + 1,
                    ((s.regs[x as int] / 10) % 10) as u8,
                ).update(s.i + 2, (s.regs[x as int] % 10) as u8),
                ..s
            },
            PcOp::Inc,
        ),
        Instruction::LoadSpriteAddrVx(x) => (
            CpuState { i: (s.regs[x as int] * 5) as u16, ..s },
            PcOp::Inc,
        ),
        Instruction::LoadDTVx(x) => (CpuState { dt: s.regs[x as int], ..s }, PcOp::Inc),
        Instruction::LoadVxDT(x) => (
            CpuState { regs: s.regs.update(x as int, s.dt), ..s },
            PcOp::Inc,
        ),
        Instruction::LoadSTVx(x) => (CpuState { st: s.regs[x as int], ..s }, PcOp::Inc),
        Instruction::AddVxByte(x, b) => (
            CpuState {
                regs: s.regs.update(
                    x as int,
                    if s.regs[x as int] + b > 255 {
                        (s.regs[x as int] + b - 256) as u8
                    } else {
                        (s.regs[x as int] + b) as u8
                    },
                ),
                ..s
            },
            PcOp::Inc,
        ),
        Instruction::AddVxVy(x, y) => (
            {
                let flag: u8 = if s.regs[y as int] > 255 - s.regs[x as int] {
                    1
                } else {
                    0
                };
                let r1 = s.regs.update(15, flag);
                CpuState {
                    regs: r1.update(
                        x as int,
                        if r1[x as int] + r1[y as int] > 255 {
                            (r1[x as int] + r1[y as int] - 256) as u8
                        } else {
                            (r1[x as int] + r1[y as int]) as u8
                        },
                    ),
                    ..s
                }
            },
            PcOp::Inc,
        ),
        Instruction::AddIVx(x) => (
            CpuState {
                i: if s.i + s.regs[x as int] > 0xffff {
                    (s.i + s.regs[x as int] - 0x10000) as u16
                } else {
                    (s.i + s.regs[x as int]) as u16
                },
                ..s
            },
            PcOp::Inc,
        ),
        Instruction::SubVxVy(x, y) => (
            {
                let flag: u8 = if s.regs[x as int] > s.regs[y as int] {
                    1
                } else {
                    0
                };
                let r1 = s.regs.update(15, flag);
                CpuState {
                    regs: r1.update(
                        x as int,
                        if r1[x as int] - r1[y as int] < 0 {
                            (r1[x as int] - r1[y as int] + 256) as u8
                        } else {
                            (r1[x as int] - r1[y as int]) as u8
                        },
                    ),
                    ..s
                }
            },
            PcOp::Inc,
        ),
        Instruction::SubnVxVy(x, y) => (
            {
                let flag: u8 = if s.regs[y as int] > s.regs[x as int] {
                    1
                } else {
                    0
                };
                let r1 = s.regs.update(15, flag);
                CpuState {
                    regs: r1.update(
                        x as int,
                        if r1[y as int] - r1[x as int] < 0 {
                            (r1[y as int] - r1[x as int] + 256) as u8
                        } else {
                            (r1[y as int] - r1[x as int]) as u8
                        },
                    ),
                    ..s
                }
            },
            PcOp::Inc,
        ),
        Instruction::AndVxVy(x, y) => (
            CpuState { regs: s.regs.update(x as int, s.regs[x as int] & s.regs[y as int]), ..s },
            PcOp::Inc,
        ),
        Instruction::OrVxVy(x, y) => (
            CpuState { regs: s.regs.update(x as int, s.regs[x as int] | s.regs[y as int]), ..s },
            PcOp::Inc,
        ),
        Instruction::XorVxVy(x, y) => (
            CpuState { regs: s.regs.update(x as int, s.regs[x as int] ^ s.regs[y as int]), ..s },
            PcOp::Inc,
        ),
        Instruction::ShlVxby1(x) => (
            {
                let r1 = s.regs.update(15, s.regs[x as int] & 0x80);
                CpuState { regs: r1.update(x as int, r1[x as int] << 1), ..s }
            },
            PcOp::Inc,
        ),
        Instruction::ShrVxby1(x) => (
            {
                let r1 = s.regs.update(15, s.regs[x as int] & 0x01);
                CpuState { regs: r1.update(x as int, r1[x as int] >> 1), ..s }
            },
            PcOp::Inc,
        ),
        Instruction::RandVxAndByte(x, b) => (
            CpuState { regs: s.regs.update(x as int, rnd & b), ..s },
            PcOp::Inc,
        ),
        Instruction::DisplaySpriteVxVyNibble(x, y, n) => (
            {
                let rows = if n == 0 {
                    Seq::empty()
                } else {
                    s.mem.subrange(s.i as int, s.i + n)
                };
                let fb2 = gpu::blit(s.fb, s.regs[x as int] as int, s.regs[y as int] as int, rows);
                let flag: u8 = if gpu::blit_collides(
                    s.fb,
                    s.regs[x as int] as int,
                    s.regs[y as int] as int,
                    rows,
                ) {
                    1
                } else {
                    0
                };
                CpuState { regs: s.regs.update(15, flag), fb: fb2, ..s }
            },
            PcOp::Inc,
        ),
        Instruction::SkipKeyPressedVx(x) => (
            s,
            if keys.contains(s.regs[x as int]) {
                PcOp::SkipNext
            } else {
                PcOp::Inc
            },
        ),
        Instruction::SkipKeyNotPressedVx(x) => (
            s,
            if !keys.contains(s.regs[x as int]) {
                PcOp::SkipNext
            } else {
                PcOp::Inc
            },
        ),
        Instruction::LoadVxKey(x) => if keys.len() == 0 {
            (s, PcOp::Stay)
        } else {
            (CpuState { regs: s.regs.update(x as int, keys[0]), ..s }, PcOp::Inc)
        },
    }
}

/// The program counter after a step: two onward by default, four for a
/// taken skip, unchanged for a blocked wait, or set directly by a jump.
/// Every outcome but `Stay` records the counter this step ran at.
pub open spec fn advance(t: CpuState, pc0: u16, op: PcOp) -> CpuState {
    match op {
        PcOp::Inc => CpuState { pc: (pc0 + 2) as u16, prev_pc: pc0, ..t },
        PcOp::SkipNext => CpuState { pc: (pc0 + 4) as u16, prev_pc: pc0, ..t },
        PcOp::Stay => CpuState { pc: pc0, ..t },
        PcOp::JumpAddr(a) => CpuState { pc: a, prev_pc: pc0, ..t },
    }
}

/// One whole step: fetch the word at the program counter (a bounds fault if
/// it does not fit below 4096), decode it (an unrecognized-opcode fault if
/// no pattern matches), refuse the instruction's own fatal conditions, halt
/// a repeating counter under the fatal policy, and otherwise apply the
/// instruction and advance.
pub open spec fn spec_step(s: CpuState, keys: Seq<u8>, rnd: u8) -> Result<CpuState, Fault> {
    if s.pc + 1 >= MEM_SIZE {
        Err(Fault::MemoryBoundsFault)
    } else {
        match decoder::spec_decode(word_at(s.mem, s.pc as int)) {
            None => Err(Fault::UnrecognizedOpcode),
            Some(instr) => match instr_fault(s, instr) {
                Some(f) => Err(f),
                None => if s.policy == StuckPolicy::Fatal && s.pc == s.prev_pc {
                    Err(Fault::StuckProgramCounter)
                } else {
                    let (t, op) = instr_effect(s, instr, keys, rnd);
                    Ok(advance(t, s.pc, op))
                },
            },
        }
    }
}

/// How one `execute` call relates the machine states before and after it:
/// on success the new state is exactly the stepped one; on a fault the call
/// reports exactly the condition the step ran into and changes nothing.
pub open spec fn step_matches(
    pre: CpuState,
    post: CpuState,
    keys: Seq<u8>,
    rnd: u8,
    r: Result<(), Fault>,
) -> bool {
    match spec_step(pre, keys, rnd) {
        Ok(s) => r is Ok && post == s,
        Err(f) => r == Err::<(), Fault>(f) && post == pre,
    }
}

/// A subroutine call followed immediately by a return leaves the program
/// counter at the instruction after the call, and the net stack depth
/// unchanged: the call pushes the return address that the return pops.
pub proof fn lemma_call_then_return(
    s: CpuState,
    keys1: Seq<u8>,
    keys2: Seq<u8>,
    rnd1: u8,
    rnd2: u8,
    a: u16,
)
    requires
        wf_state(s),
        s.pc + 1 < MEM_SIZE,
        decoder::spec_decode(word_at(s.mem, s.pc as int)) == Some(Instruction::Call(a)),
        s.policy == StuckPolicy::Fatal ==> s.pc != s.prev_pc,
        a + 1 < MEM_SIZE,
        decoder::spec_decode(word_at(s.mem, a as int)) == Some(Instruction::Return),
        s.policy == StuckPolicy::Fatal ==> a != s.pc,
    ensures
        spec_step(s, keys1, rnd1) matches Ok(s1) && (spec_step(s1, keys2, rnd2) matches Ok(s2)
            && s2.pc == s.pc + 2 && s2.stack == s.stack),
{
    decoder::lemma_decode_wf(word_at(s.mem, s.pc as int));
    let s1 = spec_step(s, keys1, rnd1)->Ok_0;
    assert(s1.stack =~= s.stack.push((s.pc + 2) as u16));
    let s2 = spec_step(s1, keys2, rnd2)->Ok_0;
    assert(s2.stack =~= s.stack);
}

/// A wait-for-key with no key pressed leaves the machine exactly as it
/// was, so repeated steps stay put; once a key is available, the target
/// register receives the first listed key code and the counter resumes
/// normal advancement.
pub proof fn lemma_wait_for_key(s: CpuState, keys: Seq<u8>, rnd: u8, x: usize)
    requires
        wf_state(s),
        s.pc + 1 < MEM_SIZE,
        decoder::spec_decode(word_at(s.mem, s.pc as int)) == Some(Instruction::LoadVxKey(x)),
        s.policy == StuckPolicy::Fatal ==> s.pc != s.prev_pc,
    ensures
        keys.len() == 0 ==> spec_step(s, keys, rnd) == Ok::<CpuState, Fault>(s),
        keys.len() > 0 ==> spec_step(s, keys, rnd) == Ok::<CpuState, Fault>(
            CpuState {
                regs: s.regs.update(x as int, keys[0]),
                pc: (s.pc + 2) as u16,
                prev_pc: s.pc,
                ..s
            },
        ),
{
    decoder::lemma_decode_wf(word_at(s.mem, s.pc as int));
    if keys.len() == 0 {
        assert(spec_step(s, keys, rnd)->Ok_0 =~= s);
    } else {
        assert(spec_step(s, keys, rnd)->Ok_0 =~= (CpuState {
            regs: s.regs.update(x as int, keys[0]),
            pc: (s.pc + 2) as u16,
            prev_pc: s.pc,
            ..s
        }));
    }
}

/// Relies on `rand::random` of the rand crate: a uniformly random byte
/// from the thread-local generator. Nothing is assumed about the value
/// drawn; the step's contract holds for every byte that may come back.
#[verifier::external_body]
fn random_byte() -> u8 {
    rand::random::<u8>()
}

/// The banner line of a state dump.
pub open spec fn header_line() -> Seq<u8> {
    seq![
        0x2Du8, 0x2D, 0x2D, 0x2D, 0x20, 0x43, 0x50, 0x55, 0x20, 0x53, 0x54, 0x41, 0x54, 0x45,
        0x20, 0x2D, 0x2D, 0x2D, 0x2D,
    ]
}

/// One register cell of a dump: `V<index>: <value>` in upper-case hex.
pub open spec fn reg_pair(r: int, v: u8) -> Seq<u8> {
    seq![0x56u8] + hex1_upper(r) + seq![0x3Au8, 0x20] + hex2_upper(v as int)
}

/// One row of four register cells of a dump.
pub open spec fn reg_line(regs: Seq<u8>, row: int) -> Seq<u8> {
    reg_pair(4 * row, regs[4 * row]) + seq![0x20u8, 0x20, 0x20] + reg_pair(
        4 * row + 1,
        regs[4 * row + 1],
    ) + seq![0x20u8, 0x20] + reg_pair(4 * row + 2, regs[4 * row + 2]) + seq![0x20u8, 0x20]
        + reg_pair(4 * row + 3, regs[4 * row + 3])
}

/// The timers line of a dump.
pub open spec fn dt_st_line(dt: u8, st: u8) -> Seq<u8> {
    seq![0x44u8, 0x54, 0x3A, 0x20] + hex2_upper(dt as int) + seq![0x20u8, 0x20, 0x20] + seq![
        0x53u8, 0x54, 0x3A, 0x20,
    ] + hex2_upper(st as int)
}

/// The index-register line of a dump.
pub open spec fn i_line(i: u16) -> Seq<u8> {
    seq![0x49u8, 0x20, 0x3A, 0x20] + hex4_upper(i as int)
}

/// The program-counter line of a dump.
pub open spec fn pc_line(pc: u16) -> Seq<u8> {
    seq![0x50u8, 0x43, 0x3A, 0x20] + hex4_upper(pc as int)
}

/// The `k`-th stack line of a dump, top of the stack first: the top line is
/// marked `SP:`, the ones below are indented.
pub open spec fn stack_line(stack: Seq<u16>, k: int) -> Seq<u8> {
    (if k == 0 {
        seq![0x53u8, 0x50, 0x3A, 0x20]
    } else {
        seq![0x20u8, 0x20, 0x20, 0x20]
    }) + hex4_upper(stack[stack.len() - 1 - k] as int)
}

/// Appends one register cell.
fn push_reg_pair(v: &mut Vec<u8>, idx: u8, val: u8)
    requires
        idx < 16,
    ensures
        final(v)@ == old(v)@ + reg_pair(idx as int, val),
        all_ascii(old(v)@) ==> all_ascii(final(v)@),
{
    push_lit(v, 0x56);
    push_hex1_upper(v, idx);
    push_lit(v, 0x3A);
    push_lit(v, 0x20);
    push_hex2_upper(v, val);
    proof {
        assert(v@ =~= old(v)@ + reg_pair(idx as int, val));
    }
}

/// Whether `k` occurs among the pressed key codes.
fn contains_key(keys: &Vec<u8>, k: u8) -> (r: bool)
    ensures
        r == keys@.contains(k),
{
    let mut idx: usize = 0;
    while idx < keys.len()
        invariant
            idx <= keys@.len(),
            forall|j: int| 0 <= j < idx ==> keys@[j] != k,
        decreases keys@.len() - idx,
    {
        if keys[idx] == k {
            return true;
        }
        idx = idx + 1;
    }
    false
}

/// The execution engine.
pub struct Cpu {
    regs: Vec<u8>,
    i: u16,
    dt: u8,
    st: u8,
    pc: u16,
    stack: Vec<u16>,
    prev_pc: u16,
    policy: StuckPolicy,
    ram: Memory,
    gpu: Gpu,
}

impl View for Cpu {
    type V = CpuState;

    closed spec fn view(&self) -> CpuState {
        CpuState {
            regs: self.regs@,
            i: self.i,
            dt: self.dt,
            st: self.st,
            pc: self.pc,
            stack: self.stack@,
            prev_pc: self.prev_pc,
            policy: self.policy,
            mem: self.ram@,
            fb: self.gpu@,
        }
    }
}

impl Cpu {
    pub open spec fn wf(&self) -> bool {
        wf_state(self@)
    }

    /// A fresh engine over the given memory and display: registers, index,
    /// timers and stack cleared, the program counter at `PROGRAM_START`,
    /// and a repeating counter treated as fatal.
    pub fn new(ram: Memory, gpu: Gpu) -> (c: Cpu)
        requires
            ram.wf(),
            gpu.wf(),
        ensures
            c.wf(),
            c@ == initial_cpu(ram@, gpu@),
    {
        let mut regs: Vec<u8> = Vec::new();
        let mut k: usize = 0;
        while k < 16
            invariant
                k <= 16,
                regs@.len() == k,
                forall|j: int| 0 <= j < k ==> regs@[j] == 0u8,
            decreases 16 - k,
        {
            regs.push(0);
            k = k + 1;
        }
        let c = Cpu {
            regs,
            i: 0,
            dt: 0,
            st: 0,
            pc: PROGRAM_START,
            stack: Vec::new(),
            prev_pc: 0,
            policy: StuckPolicy::Fatal,
            ram,
            gpu,
        };
        proof {
            assert(c@ =~= initial_cpu(c.ram@, c.gpu@));
        }
        c
    }

    /// Chooses whether a repeating program counter halts the engine or is
    /// carried past silently.
    pub fn set_stuck_policy(&mut self, policy: StuckPolicy)
        ensures
            final(self)@ == (CpuState { policy, ..old(self)@ }),
    {
        self.policy = policy;
        proof {
            assert(self@ =~= (CpuState { policy, ..old(self)@ }));
        }
    }

    /// The display's pixel matrix, row-major, for a host renderer.
    pub fn get_fb(&self) -> (r: &[bool])
        ensures
            r@ == self@.fb,
    {
        self.gpu.pixels()
    }

    /// Loads a program verbatim at `PROGRAM_START`; a program longer than
    /// the space above that address is refused whole as a bounds fault.
    pub fn load_rom(&mut self, data: &[u8]) -> (r: Result<(), Fault>)
        requires
            old(self).wf(),
        ensures
            final(self).wf(),
            PROGRAM_START + data@.len() <= MEM_SIZE ==> r is Ok && final(self)@ == (CpuState {
                mem: overwrite(old(self)@.mem, PROGRAM_START as int, data@),
                ..old(self)@
            }),
            PROGRAM_START + data@.len() > MEM_SIZE ==> r == Err::<(), Fault>(
                Fault::MemoryBoundsFault,
            ) && final(self)@ == old(self)@,
    {
        let r = self.ram.load(PROGRAM_START, data);
        proof {
            if PROGRAM_START + data@.len() <= MEM_SIZE {
                assert(self@ =~= (CpuState {
                    mem: overwrite(old(self)@.mem, PROGRAM_START as int, data@),
                    ..old(self)@
                }));
            } else {
                assert(self@ =~= old(self)@);
            }
        }
        r
    }

    /// Decrements each timer by exactly 1, floored at 0; independent of
    /// `execute`.
    pub fn timer_tick(&mut self)
        ensures
            final(self)@ == (CpuState {
                dt: if old(self)@.dt > 0 {
                    (old(self)@.dt - 1) as u8
                } else {
                    0
                },
                st: if old(self)@.st > 0 {
                    (old(self)@.st - 1) as u8
                } else {
                    0
                },
                ..old(self)@
            }),
    {
        if self.dt > 0 {
            self.dt = self.dt - 1;
        }
        if self.st > 0 {
            self.st = self.st - 1;
        }
        proof {
            assert(self@ =~= (CpuState {
                dt: if old(self)@.dt > 0 {
                    (old(self)@.dt - 1) as u8
                } else {
                    0
                },
                st: if old(self)@.st > 0 {
                    (old(self)@.st - 1) as u8
                } else {
                    0
                },
                ..old(self)@
            }));
        }
    }

    /// The current program counter, for a host that sizes its disassembly
    /// window before asking for the next instructions.
    pub fn pc(&self) -> (r: u16)
        ensures
            r == self@.pc,
    {
        self.pc
    }

    /// The next `n` big-endian words starting at the program counter, for a
    /// disassembly view; the whole range must sit inside memory.
    pub fn get_next_n_instr(&self, n: usize) -> (r: Vec<u16>)
        requires
            self.wf(),
            self@.pc + 2 * n <= MEM_SIZE,
        ensures
            r@.len() == n,
            forall|k: int| 0 <= k < n ==> r@[k] == word_at(self@.mem, self@.pc + 2 * k),
    {
        let mut instrs: Vec<u16> = Vec::new();
        let mut k: usize = 0;
        while k < n
            invariant
                self.wf(),
                self@.pc + 2 * n <= MEM_SIZE,
                k <= n,
                instrs@.len() == k,
                forall|j: int| 0 <= j < k ==> instrs@[j] == word_at(self@.mem, self@.pc + 2 * j),
            decreases n - k,
        {
            let hi = self.ram.read_byte(self.pc + (2 * k) as u16);
            let lo = self.ram.read_byte(self.pc + (2 * k + 1) as u16);
            instrs.push((hi as u16) * 256 + (lo as u16));
            k = k + 1;
        }
        instrs
    }

    /// Applies one validated instruction's effect on everything but the
    /// program counter and reports how the counter should advance.
    fn apply_effect(&mut self, instr: Instruction, keys: &Vec<u8>, rnd: u8) -> (op: PcOp)
        requires
            old(self).wf(),
            decoder::wf_instr(instr),
            instr_fault(old(self)@, instr) is None,
            old(self)@.pc + 2 < 0x10000,
        ensures
            final(self).wf(),
            final(self)@ == instr_effect(old(self)@, instr, keys@, rnd).0,
            op == instr_effect(old(self)@, instr, keys@, rnd).1,
    {
        match instr {
            Instruction::ClearDisplay
            | Instruction::Return
            | Instruction::Jump(_)
            | Instruction::JumpV0Addr(_)
            | Instruction::Call(_)
            | Instruction::SkipEqVxByte(_, _)
            | Instruction::SkipNeqVxByte(_, _)
            | Instruction::SkipEqVxVy(_, _)
            | Instruction::SkipNeqVxVy(_, _) => self.apply_effect_flow(instr, keys, rnd),
            Instruction::LoadVxByte(_, _)
            | Instruction::LoadVxVy(_, _)
            | Instruction::LoadIAddr(_)
            | Instruction::StoreRegsVx(_)
            | Instruction::LoadRegsVx(_)
            | Instruction::LoadBVx(_)
            | Instruction::LoadSpriteAddrVx(_)
            | Instruction::LoadDTVx(_)
            | Instruction::LoadVxDT(_)
            | Instruction::LoadSTVx(_)
            | Instruction::LoadVxKey(_)
            | Instruction::RandVxAndByte(_, _) => self.apply_effect_load(instr, keys, rnd),
            Instruction::DisplaySpriteVxVyNibble(_, _, _)
            | Instruction::SkipKeyPressedVx(_)
            | Instruction::SkipKeyNotPressedVx(_) => self.apply_effect_draw(instr, keys, rnd),
            Instruction::AndVxVy(_, _)
            | Instruction::OrVxVy(_, _)
            | Instruction::XorVxVy(_, _)
            | Instruction::ShlVxby1(_)
            | Instruction::ShrVxby1(_) => self.apply_effect_bit(instr, keys, rnd),
            _ => self.apply_effect_alu(instr, keys, rnd),
        }
    }

    /// Control flow, display clear and the conditional skips; see `apply_effect`.
    #[verifier::rlimit(100)]
    fn apply_effect_flow(&mut self, instr: Instruction, keys: &Vec<u8>, rnd: u8) -> (op: PcOp)
        requires
            old(self).wf(),
            decoder::wf_instr(instr),
            instr_fault(old(self)@, instr) is None,
            old(self)@.pc + 2 < 0x10000,
            (instr is ClearDisplay) || (instr is Return) || (instr is Jump)
                || (instr is JumpV0Addr) || (instr is Call) || (instr is SkipEqVxByte)
                || (instr is SkipNeqVxByte) || (instr is SkipEqVxVy) || (instr is SkipNeqVxVy),
        ensures
            final(self).wf(),
            final(self)@ == instr_effect(old(self)@, instr, keys@, rnd).0,
            op == instr_effect(old(self)@, instr, keys@, rnd).1,
    {
        let ghost s0 = self@;
        let ghost eff = instr_effect(s0, instr, keys@, rnd);
        let pc0 = self.pc;
        let mut op = PcOp::Inc;
        match instr {
            Instruction::ClearDisplay => {
                self.gpu.clear();
                proof {
                    assert(self@.fb =~= Seq::new(FB_LEN as nat, |j: int| false));
                    assert(self@ =~= eff.0);
                    assert(op == eff.1);
                }
            },
            Instruction::Return => {
                let ret = match self.stack.pop() {
                    Some(v) => v,
                    None => 0,
                };
                op = PcOp::JumpAddr(ret);
                proof {
                    assert(self@ =~= eff.0);
                    assert(op == eff.1);
                }
            },
            Instruction::Jump(a) => {
                op = PcOp::JumpAddr(a);
                proof {
                    assert(self@ =~= eff.0);
                    assert(op == eff.1);
                }
            },
            Instruction::JumpV0Addr(a) => {
                op = PcOp::JumpAddr(self.regs[0] as u16 + a);
                proof {
                    assert(self@ =~= eff.0);
                    assert(op == eff.1);
                }
            },
            Instruction::Call(a) => {
                self.stack.push(pc0 + 2);
                op = PcOp::JumpAddr(a);
                proof {
                    assert(self@ =~= eff.0);
                    assert(op == eff.1);
                }
            },
            Instruction::SkipEqVxByte(x, b) => {
                if self.regs[x] == b {
                    op = PcOp::SkipNext;
                }
                proof {
                    assert(self@ =~= eff.0);
                    assert(op == eff.1);
                }
            },
            Instruction::SkipNeqVxByte(x, b) => {
                if self.regs[x] != b {
                    op = PcOp::SkipNext;
                }
                proof {
                    assert(self@ =~= eff.0);
                    assert(op == eff.1);
                }
            },
            Instruction::SkipEqVxVy(x, y) => {
                if self.regs[x] == self.regs[y] {
                    op = PcOp::SkipNext;
                }
                proof {
                    assert(self@ =~= eff.0);
                    assert(op == eff.1);
                }
            },
            Instruction::SkipNeqVxVy(x, y) => {
                if self.regs[x] != self.regs[y] {
                    op = PcOp::SkipNext;
                }
                proof {
                    assert(self@ =~= eff.0);
                    assert(op == eff.1);
                }
            },
            _ => {
            },
        }
        op
    }

    /// Register, index, memory-block, timer, key and random loads; see `apply_effect`.
    #[verifier::rlimit(100)]
    fn apply_effect_load(&mut self, instr: Instruction, keys: &Vec<u8>, rnd: u8) -> (op: PcOp)
        requires
            old(self).wf(),
            decoder::wf_instr(instr),
            instr_fault(old(self)@, instr) is None,
            old(self)@.pc + 2 < 0x10000,
            (instr is LoadVxByte) || (instr is LoadVxVy) || (instr is LoadIAddr)
                || (instr is StoreRegsVx) || (instr is LoadRegsVx) || (instr is LoadBVx)
                || (instr is LoadSpriteAddrVx) || (instr is LoadDTVx) || (instr is LoadVxDT)
                || (instr is LoadSTVx) || (instr is LoadVxKey) || (instr is RandVxAndByte),
        ensures
            final(self).wf(),
            final(self)@ == instr_effect(old(self)@, instr, keys@, rnd).0,
            op == instr_effect(old(self)@, instr, keys@, rnd).1,
    {
        let ghost s0 = self@;
        let ghost eff = instr_effect(s0, instr, keys@, rnd);
        let mut op = PcOp::Inc;
        match instr {
            Instruction::LoadVxByte(x, b) => {
                self.regs[x] = b;
                proof {
                    assert(self@ =~= eff.0);
                    assert(op == eff.1);
                }
            },
            Instruction::LoadVxVy(x, y) => {
                self.regs[x] = self.regs[y];
                proof {
                    assert(self@ =~= eff.0);
                    assert(op == eff.1);
                }
            },
            Instruction::LoadIAddr(a) => {
                self.i = a;
                proof {
                    assert(self@ =~= eff.0);
                    assert(op == eff.1);
                }
            },
            Instruction::StoreRegsVx(x) => {
                let mut vi: usize = 0;
                while vi <= x
                    invariant
                        x < 16,
                        vi <= x + 1,
                        self@.regs.len() == 16,
                        self@.mem.len() == MEM_SIZE,
                        self.i + x < MEM_SIZE,
                        self@.mem == overwrite(s0.mem, self.i as int, self@.regs.take(vi as int)),
                        self@ == (CpuState { mem: self@.mem, ..s0 }),
                    decreases x + 1 - vi,
                {
                    self.ram.write_byte(self.i + vi as u16, self.regs[vi]);
                    vi = vi + 1;
                    proof {
                        assert(self@.regs.take(vi as int).drop_last() =~= self@.regs.take(
                            vi as int - 1,
                        ));
                        assert(self@.mem =~= overwrite(
                            s0.mem,
                            self.i as int,
                            self@.regs.take(vi as int),
                        ));
                        assert(self@ =~= (CpuState { mem: self@.mem, ..s0 }));
                    }
                }
                proof {
                    assert(self@.regs.take(x + 1) =~= s0.regs.take(x + 1));
                }
                proof {
                    assert(self@ =~= eff.0);
                    assert(op == eff.1);
                }
            },
            Instruction::LoadRegsVx(x) => {
                let mut vi: usize = 0;
                while vi <= x
                    invariant
                        x < 16,
                        vi <= x + 1,
                        self@.regs.len() == 16,
                        self@.mem.len() == MEM_SIZE,
                        self.i + x < MEM_SIZE,
                        forall|j: int| 0 <= j < vi ==> self@.regs[j] == s0.mem[self.i + j],
                        forall|j: int| vi <= j < 16 ==> self@.regs[j] == s0.regs[j],
                        self@ == (CpuState { regs: self@.regs, ..s0 }),
                    decreases x + 1 - vi,
                {
                    let b = self.ram.read_byte(self.i + vi as u16);
                    self.regs[vi] = b;
                    vi = vi + 1;
                    proof {
                        assert(self@ =~= (CpuState { regs: self@.regs, ..s0 }));
                    }
                }
                proof {
                    assert(self@.regs =~= Seq::new(
                        16,
                        |r: int| if r <= x { s0.mem[s0.i + r] } else { s0.regs[r] },
                    ));
                }
                proof {
                    assert(self@ =~= eff.0);
                    assert(op == eff.1);
                }
            },
            Instruction::LoadBVx(x) => {
                let v = self.regs[x];
                self.ram.write_byte(self.i, v / 100);
                self.ram.write_byte(self.i + 1, (v / 10) % 10);
                self.ram.write_byte(self.i + 2, v % 10);
                proof {
                    assert(self@ =~= eff.0);
                    assert(op == eff.1);
                }
            },
            Instruction::LoadSpriteAddrVx(x) => {
                self.i = self.regs[x] as u16 * 5;
                proof {
                    assert(self@ =~= eff.0);
                    assert(op == eff.1);
                }
            },
            Instruction::LoadDTVx(x) => {
                self.dt = self.regs[x];
                proof {
                    assert(self@ =~= eff.0);
                    assert(op == eff.1);
                }
            },
            Instruction::LoadVxDT(x) => {
                self.regs[x] = self.dt;
                proof {
                    assert(self@ =~= eff.0);
                    assert(op == eff.1);
                }
            },
            Instruction::LoadSTVx(x) => {
                self.st = self.regs[x];
                proof {
                    assert(self@ =~= eff.0);
                    assert(op == eff.1);
                }
            },
            Instruction::LoadVxKey(x) => {
                if keys.len() == 0 {
                    op = PcOp::Stay;
                } else {
                    self.regs[x] = keys[0];
                }
                proof {
                    assert(self@ =~= eff.0);
                    assert(op == eff.1);
                }
            },
            Instruction::RandVxAndByte(x, b) => {
                self.regs[x] = rnd & b;
                proof {
                    assert(self@ =~= eff.0);
                    assert(op == eff.1);
                }
            },
            _ => {
            },
        }
        op
    }

    /// The wrapping add and subtract instructions; see `apply_effect`.
    #[verifier::rlimit(100)]
    fn apply_effect_alu(&mut self, instr: Instruction, keys: &Vec<u8>, rnd: u8) -> (op: PcOp)
        requires
            old(self).wf(),
            decoder::wf_instr(instr),
            instr_fault(old(self)@, instr) is None,
            old(self)@.pc + 2 < 0x10000,
            (instr is AddVxByte) || (instr is AddVxVy) || (instr is AddIVx)
                || (instr is SubVxVy) || (instr is SubnVxVy),
        ensures
            final(self).wf(),
            final(self)@ == instr_effect(old(self)@, instr, keys@, rnd).0,
            op == instr_effect(old(self)@, instr, keys@, rnd).1,
    {
        let ghost s0 = self@;
        let ghost eff = instr_effect(s0, instr, keys@, rnd);
        let mut op = PcOp::Inc;
        match instr {
            Instruction::AddVxByte(x, b) => {
                self.regs[x] = self.regs[x].wrapping_add(b);
                proof {
                    assert(self@ =~= eff.0);
                    assert(op == eff.1);
                }
            },
            Instruction::AddVxVy(x, y) => {
                let flag: u8 = if self.regs[y] > 255 - self.regs[x] {
                    1
                } else {
                    0
                };
                self.regs[15] = flag;
                self.regs[x] = self.regs[x].wrapping_add(self.regs[y]);
                proof {
                    assert(self@ =~= eff.0);
                    assert(op == eff.1);
                }
            },
            Instruction::AddIVx(x) => {
                self.i = self.i.wrapping_add(self.regs[x] as u16);
                proof {
                    assert(self@ =~= eff.0);
                    assert(op == eff.1);
                }
            },
            Instruction::SubVxVy(x, y) => {
                let flag: u8 = if self.regs[x] > self.regs[y] {
                    1
                } else {
                    0
                };
                self.regs[15] = flag;
                self.regs[x] = self.regs[x].wrapping_sub(self.regs[y]);
                proof {
                    assert(self@ =~= eff.0);
                    assert(op == eff.1);
                }
            },
            Instruction::SubnVxVy(x, y) => {
                let flag: u8 = if self.regs[y] > self.regs[x] {
                    1
                } else {
                    0
                };
                self.regs[15] = flag;
                self.regs[x] = self.regs[y].wrapping_sub(self.regs[x]);
                proof {
                    assert(self@ =~= eff.0);
                    assert(op == eff.1);
                }
            },
            _ => {
            },
        }
        op
    }

    /// The bitwise combines and shifts; see `apply_effect`.
    #[verifier::rlimit(100)]
    fn apply_effect_bit(&mut self, instr: Instruction, keys: &Vec<u8>, rnd: u8) -> (op: PcOp)
        requires
            old(self).wf(),
            decoder::wf_instr(instr),
            instr_fault(old(self)@, instr) is None,
            old(self)@.pc + 2 < 0x10000,
            (instr is AndVxVy) || (instr is OrVxVy) || (instr is XorVxVy) || (instr is ShlVxby1)
                || (instr is ShrVxby1),
        ensures
            final(self).wf(),
            final(self)@ == instr_effect(old(self)@, instr, keys@, rnd).0,
            op == instr_effect(old(self)@, instr, keys@, rnd).1,
    {
        let ghost s0 = self@;
        let ghost eff = instr_effect(s0, instr, keys@, rnd);
        let mut op = PcOp::Inc;
        match instr {
            Instruction::AndVxVy(x, y) => {
                self.regs[x] = self.regs[x] & self.regs[y];
                proof {
                    assert(self@ =~= eff.0);
                    assert(op == eff.1);
                }
            },
            Instruction::OrVxVy(x, y) => {
                self.regs[x] = self.regs[x] | self.regs[y];
                proof {
                    assert(self@ =~= eff.0);
                    assert(op == eff.1);
                }
            },
            Instruction::XorVxVy(x, y) => {
                self.regs[x] = self.regs[x] ^ self.regs[y];
                proof {
                    assert(self@ =~= eff.0);
                    assert(op == eff.1);
                }
            },
            Instruction::ShlVxby1(x) => {
                self.regs[15] = self.regs[x] & 0x80;
                self.regs[x] = self.regs[x] << 1;
                proof {
                    assert(self@ =~= eff.0);
                    assert(op == eff.1);
                }
            },
            Instruction::ShrVxby1(x) => {
                self.regs[15] = self.regs[x] & 0x01;
                self.regs[x] = self.regs[x] >> 1;
                proof {
                    assert(self@ =~= eff.0);
                    assert(op == eff.1);
                }
            },
            _ => {
            },
        }
        op
    }

    /// The sprite draw and the key-skip tests; see `apply_effect`.
    #[verifier::rlimit(100)]
    fn apply_effect_draw(&mut self, instr: Instruction, keys: &Vec<u8>, rnd: u8) -> (op: PcOp)
        requires
            old(self).wf(),
            decoder::wf_instr(instr),
            instr_fault(old(self)@, instr) is None,
            old(self)@.pc + 2 < 0x10000,
            (instr is DisplaySpriteVxVyNibble) || (instr is SkipKeyPressedVx)
                || (instr is SkipKeyNotPressedVx),
        ensures
            final(self).wf(),
            final(self)@ == instr_effect(old(self)@, instr, keys@, rnd).0,
            op == instr_effect(old(self)@, instr, keys@, rnd).1,
    {
        let ghost s0 = self@;
        let ghost eff = instr_effect(s0, instr, keys@, rnd);
        let mut op = PcOp::Inc;
        match instr {
            Instruction::DisplaySpriteVxVyNibble(x, y, n) => {
                let lines = n as usize;
                let mut sprite: Vec<u8> = Vec::new();
                proof {
                    if lines > 0 {
                        assert(sprite@ =~= s0.mem.subrange(self.i as int, self.i as int));
                    }
                }
                let mut li: usize = 0;
                while li < lines
                    invariant
                        lines < 16,
                        li <= lines,
                        lines > 0 ==> self.i + lines - 1 < MEM_SIZE,
                        self@ == s0,
                        self@.mem.len() == MEM_SIZE,
                        lines > 0 ==> sprite@ == s0.mem.subrange(self.i as int, self.i + li),
                        sprite@.len() == li,
                    decreases lines - li,
                {
                    let b = self.ram.read_byte(self.i + li as u16);
                    sprite.push(b);
                    li = li + 1;
                    proof {
                        assert(sprite@ =~= s0.mem.subrange(self.i as int, self.i + li));
                    }
                }
                let res = self.gpu.write_sprite(
                    self.regs[x] as usize,
                    self.regs[y] as usize,
                    sprite.as_slice(),
                );
                let flag: u8 = if res == Collision::Collision {
                    1
                } else {
                    0
                };
                self.regs[15] = flag;
                proof {
                    assert(self@ =~= eff.0);
                    assert(op == eff.1);
                }
            },
            Instruction::SkipKeyPressedVx(x) => {
                if contains_key(keys, self.regs[x]) {
                    op = PcOp::SkipNext;
                }
                proof {
                    assert(self@ =~= eff.0);
                    assert(op == eff.1);
                }
            },
            Instruction::SkipKeyNotPressedVx(x) => {
                if !contains_key(keys, self.regs[x]) {
                    op = PcOp::SkipNext;
                }
                proof {
                    assert(self@ =~= eff.0);
                    assert(op == eff.1);
                }
            },
            _ => {
            },
        }
        op
    }

    /// One step with the random byte supplied by the caller, making the
    /// whole step a function of its arguments: the injectable form of
    /// `execute` for deterministic runs and tests.
    #[verifier::rlimit(100)]
    pub fn execute_with_rand(&mut self, keys: Vec<u8>, rnd: u8) -> (r: Result<(), Fault>)
        requires
            old(self).wf(),
        ensures
            final(self).wf(),
            step_matches(old(self)@, final(self)@, keys@, rnd, r),
    {
        let ghost s0 = self@;
        if self.pc >= (MEM_SIZE - 1) as u16 {
            return Err(Fault::MemoryBoundsFault);
        }
        let w_hi = self.ram.read_byte(self.pc);
        let w_lo = self.ram.read_byte(self.pc + 1);
        let word = (w_hi as u16) * 256 + (w_lo as u16);
        proof {
            assert(word == word_at(s0.mem, s0.pc as int));
        }
        let instr = match decoder::decode(word) {
            Some(i) => i,
            None => {
                return Err(Fault::UnrecognizedOpcode);
            },
        };
        // Refuse the instruction's own fatal conditions before any effect.
        match instr {
            Instruction::Return => {
                if self.stack.len() == 0 {
                    return Err(Fault::StackUnderflow);
                }
            },
            Instruction::StoreRegsVx(x) => {
                if self.i as usize + x >= MEM_SIZE {
                    return Err(Fault::MemoryBoundsFault);
                }
            },
            Instruction::LoadRegsVx(x) => {
                if self.i as usize + x >= MEM_SIZE {
                    return Err(Fault::MemoryBoundsFault);
                }
            },
            Instruction::LoadBVx(_x) => {
                if self.i as usize + 2 >= MEM_SIZE {
                    return Err(Fault::MemoryBoundsFault);
                }
            },
            Instruction::DisplaySpriteVxVyNibble(x, y, n) => {
                if n > 0 {
                    if self.i as usize + n as usize - 1 >= MEM_SIZE {
                        return Err(Fault::MemoryBoundsFault);
                    }
                    if self.regs[x] as usize >= WIDTH || self.regs[y] as usize + n as usize
                        > HEIGHT {
                        return Err(Fault::DisplayBoundsFault);
                    }
                }
            },
            _ => {},
        }
        // A repeating counter under the fatal policy halts the engine.
        if self.policy == StuckPolicy::Fatal && self.pc == self.prev_pc {
            return Err(Fault::StuckProgramCounter);
        }
        let op = self.apply_effect(instr, &keys, rnd);
        let ghost eff = instr_effect(s0, instr, keys@, rnd);
        let pc0 = self.pc;
        match op {
            PcOp::Inc => {
                self.prev_pc = pc0;
                self.pc = pc0 + 2;
            },
            PcOp::SkipNext => {
                self.prev_pc = pc0;
                self.pc = pc0 + 4;
            },
            PcOp::Stay => {},
            PcOp::JumpAddr(a) => {
                self.prev_pc = pc0;
                self.pc = a;
            },
        }
        proof {
            assert(self@ =~= advance(eff.0, s0.pc, eff.1));
        }
        Ok(())
    }

    /// The whole engine state rendered as text lines: a banner, four rows of
    /// registers, the timers, the index register, the program counter, and
    /// the call stack from its top downward.
    pub fn dump_to_vec_str(&self) -> (r: Vec<String>)
        requires
            self.wf(),
        ensures
            r@.len() == 8 + self@.stack.len(),
            r@[0]@ == chars_of(header_line()),
            forall|row: int| 0 <= row < 4 ==> (#[trigger] r@[row + 1])@ == chars_of(
                reg_line(self@.regs, row),
            ),
            r@[5]@ == chars_of(dt_st_line(self@.dt, self@.st)),
            r@[6]@ == chars_of(i_line(self@.i)),
            r@[7]@ == chars_of(pc_line(self@.pc)),
            forall|k: int| 0 <= k < self@.stack.len() ==> (#[trigger] r@[8 + k])@ == chars_of(
                stack_line(self@.stack, k),
            ),
    {
        let mut out: Vec<String> = Vec::new();
        let mut banner: Vec<u8> = Vec::new();
        push_lit(&mut banner, 0x2D);
        push_lit(&mut banner, 0x2D);
        push_lit(&mut banner, 0x2D);
        push_lit(&mut banner, 0x2D);
        push_lit(&mut banner, 0x20);
        push_lit(&mut banner, 0x43);
        push_lit(&mut banner, 0x50);
        push_lit(&mut banner, 0x55);
        push_lit(&mut banner, 0x20);
        push_lit(&mut banner, 0x53);
        push_lit(&mut banner, 0x54);
        push_lit(&mut banner, 0x41);
        push_lit(&mut banner, 0x54);
        push_lit(&mut banner, 0x45);
        push_lit(&mut banner, 0x20);
        push_lit(&mut banner, 0x2D);
        push_lit(&mut banner, 0x2D);
        push_lit(&mut banner, 0x2D);
        push_lit(&mut banner, 0x2D);
        proof {
            assert(banner@ =~= header_line());
        }
        out.push(ascii_to_string(banner));
        let mut row: usize = 0;
        while row < 4
            invariant
                self.wf(),
                row <= 4,
                out@.len() == row + 1,
                out@[0]@ == chars_of(header_line()),
                forall|j: int| 0 <= j < row ==> (#[trigger] out@[j + 1])@ == chars_of(
                    reg_line(self@.regs, j),
                ),
            decreases 4 - row,
        {
            let mut line: Vec<u8> = Vec::new();
            push_reg_pair(&mut line, (4 * row) as u8, self.regs[4 * row]);
            push_lit(&mut line, 0x20);
            push_lit(&mut line, 0x20);
            push_lit(&mut line, 0x20);
            push_reg_pair(&mut line, (4 * row + 1) as u8, self.regs[4 * row + 1]);
            push_lit(&mut line, 0x20);
            push_lit(&mut line, 0x20);
            push_reg_pair(&mut line, (4 * row + 2) as u8, self.regs[4 * row + 2]);
            push_lit(&mut line, 0x20);
            push_lit(&mut line, 0x20);
            push_reg_pair(&mut line, (4 * row + 3) as u8, self.regs[4 * row + 3]);
            proof {
                assert(line@ =~= reg_line(self@.regs, row as int));
            }
            out.push(ascii_to_string(line));
            row = row + 1;
        }
        let mut line: Vec<u8> = Vec::new();
        push_lit(&mut line, 0x44);
        push_lit(&mut line, 0x54);
        push_lit(&mut line, 0x3A);
        push_lit(&mut line, 0x20);
        push_hex2_upper(&mut line, self.dt);
        push_lit(&mut line, 0x20);
        push_lit(&mut line, 0x20);
        push_lit(&mut line, 0x20);
        push_lit(&mut line, 0x53);
        push_lit(&mut line, 0x54);
        push_lit(&mut line, 0x3A);
        push_lit(&mut line, 0x20);
        push_hex2_upper(&mut line, self.st);
        proof {
            assert(line@ =~= dt_st_line(self@.dt, self@.st));
        }
        out.push(ascii_to_string(line));
        let mut line: Vec<u8> = Vec::new();
        push_lit(&mut line, 0x49);
        push_lit(&mut line, 0x20);
        push_lit(&mut line, 0x3A);
        push_lit(&mut line, 0x20);
        push_hex4_upper(&mut line, self.i);
        proof {
            assert(line@ =~= i_line(self@.i));
        }
        out.push(ascii_to_string(line));
        let mut line: Vec<u8> = Vec::new();
        push_lit(&mut line, 0x50);
        push_lit(&mut line, 0x43);
        push_lit(&mut line, 0x3A);
        push_lit(&mut line, 0x20);
        push_hex4_upper(&mut line, self.pc);
        proof {
            assert(line@ =~= pc_line(self@.pc));
        }
        out.push(ascii_to_string(line));
        let depth = self.stack.len();
        let mut k: usize = 0;
        while k < depth
            invariant
                self.wf(),
                depth == self@.stack.len(),
                k <= depth,
                out@.len() == 8 + k,
                out@[0]@ == chars_of(header_line()),
                forall|j: int| 0 <= j < 4 ==> (#[trigger] out@[j + 1])@ == chars_of(
                    reg_line(self@.regs, j),
                ),
                out@[5]@ == chars_of(dt_st_line(self@.dt, self@.st)),
                out@[6]@ == chars_of(i_line(self@.i)),
                out@[7]@ == chars_of(pc_line(self@.pc)),
                forall|j: int| 0 <= j < k ==> (#[trigger] out@[8 + j])@ == chars_of(
                    stack_line(self@.stack, j),
                ),
            decreases depth - k,
        {
            let mut line: Vec<u8> = Vec::new();
            if k == 0 {
                push_lit(&mut line, 0x53);
                push_lit(&mut line, 0x50);
                push_lit(&mut line, 0x3A);
                push_lit(&mut line, 0x20);
            } else {
                push_lit(&mut line, 0x20);
                push_lit(&mut line, 0x20);
                push_lit(&mut line, 0x20);
                push_lit(&mut line, 0x20);
            }
            push_hex4_upper(&mut line, self.stack[depth - 1 - k]);
            proof {
                assert(line@ =~= stack_line(self@.stack, k as int));
            }
            out.push(ascii_to_string(line));
            k = k + 1;
        }
        out
    }

    /// One step with the pressed-key set supplied by the host: fetches the
    /// word at the program counter, decodes it, applies its effect and
    /// advances. The random-byte instruction draws from the ambient source;
    /// everything a step can do is pinned for every value it may draw.
    pub fn execute(&mut self, keys: Vec<u8>) -> (r: Result<(), Fault>)
        requires
            old(self).wf(),
        ensures
            final(self).wf(),
            exists|rnd: u8| step_matches(old(self)@, final(self)@, keys@, rnd, r),
    {
        let rnd: u8 = random_byte();
        let r = self.execute_with_rand(keys, rnd);
        proof {
            assert(step_matches(old(self)@, self@, keys@, rnd, r));
        }
        r
    }
}

} // verus!
