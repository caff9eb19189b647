use vstd::prelude::*;
use crate::keyboard::Key;
use crate::opcode::{decode_spec, Opcode, ParseOpcodeError};
use crate::screen::{blank_buffer, collides, draw_sprite};

verus! {

/// Size of the addressable memory in bytes.
pub const MEMORY_SIZE: usize = 4096;

/// Where programs are loaded and where execution starts.
pub const PROGRAM_START: usize = 0x200;

/// Deepest nesting of subroutine calls.
pub const STACK_DEPTH: usize = 16;

/// Why the engine could not execute a cycle.
#[derive(Clone, Copy, Debug, PartialEq, Eq, Structural)]
pub enum Chip8Error {
    /// The word at the program counter is no instruction.
    Decode(ParseOpcodeError),
    /// A register that names a key holds a value above 0xF.
    UnknownKey(u8),
    /// A call with sixteen return addresses already on the stack.
    StackOverflow,
    /// A return with no return address on the stack.
    StackUnderflow,
    /// An access reaches past the last byte of memory.
    AddressOutOfRange,
}

/// The observable state of the machine.
pub struct Machine {
    pub memory: Seq<u8>,
    pub register: Seq<u8>,
    pub index: u16,
    pub pc: u16,
    /// Return addresses, the most recent last.
    pub stack: Seq<u16>,
    pub delay_timer: u8,
    pub sound_timer: u8,
    pub screen: Seq<u8>,
}

/// The built-in font: sixteen glyphs, 0 to F, of five rows each.
pub open spec fn font() -> Seq<u8> {
    seq![
        0xF0u8, 0x90, 0x90, 0x90, 0xF0,
        0x20, 0x60, 0x20, 0x20, 0x70,
        0xF0, 0x10, 0xF0, 0x80, 0xF0,
        0xF0, 0x10, 0xF0, 0x10, 0xF0,
        0x90, 0x90, 0xF0, 0x10, 0x10,
        0xF0, 0x80, 0xF0, 0x10, 0xF0,
        0xF0, 0x80, 0xF0, 0x90, 0xF0,
        0xF0, 0x10, 0x20, 0x40, 0x40,
        0xF0, 0x90, 0xF0, 0x90, 0xF0,
        0xF0, 0x90, 0xF0, 0x10, 0xF0,
        0xF0, 0x90, 0xF0, 0x90, 0x90,
        0xE0, 0x90, 0xE0, 0x90, 0xE0,
        0xF0, 0x80, 0x80, 0x80, 0xF0,
        0xE0, 0x90, 0x90, 0x90, 0xE0,
        0xF0, 0x80, 0xF0, 0x80, 0xF0,
        0xF0, 0x80, 0xF0, 0x80, 0x80,
    ]
}

/// `pc + k` on the 16-bit program counter.
pub open spec fn pc_plus(pc: u16, k: int) -> u16 {
    ((pc + k) % 0x10000) as u16
}

/// The big-endian word at `pc`, or why there is none.
pub open spec fn fetch_spec(m: Machine) -> Result<Opcode, Chip8Error> {
    if m.pc + 1 >= MEMORY_SIZE {
        Err(Chip8Error::AddressOutOfRange)
    } else {
        let w = (m.memory[m.pc as int] * 256 + m.memory[m.pc + 1]) as u16;
        match decode_spec(w) {
            Ok(op) => Ok(op),
            Err(e) => Err(Chip8Error::Decode(e)),
        }
    }
}

pub open spec fn set_reg(m: Machine, i: int, v: u8) -> Machine {
    Machine { register: m.register.update(i, v), ..m }
}

pub open spec fn goto(m: Machine, pc: u16) -> Machine {
    Machine { pc, ..m }
}

/// Moves on to the next instruction.
pub open spec fn advance(m: Machine) -> Machine {
    goto(m, pc_plus(m.pc, 2))
}

/// Skips the next instruction when `cond` holds, else moves on to it.
pub open spec fn skip_if(m: Machine, cond: bool) -> Machine {
    goto(m, pc_plus(m.pc, if cond { 4 } else { 2 }))
}

/// The flag value for a condition.
pub open spec fn flag(cond: bool) -> u8 {
    if cond { 1 } else { 0 }
}

/// Memory with `regs[0..=x]` stored from address `i` on.
pub open spec fn store_registers(mem: Seq<u8>, regs: Seq<u8>, i: int, x: int) -> Seq<u8> {
    Seq::new(mem.len(), |a: int| if i <= a <= i + x { regs[a - i] } else { mem[a] })
}

/// Registers with `mem[i..=i + x]` loaded into `0..=x`.
pub open spec fn load_registers(regs: Seq<u8>, mem: Seq<u8>, i: int, x: int) -> Seq<u8> {
    Seq::new(regs.len(), |k: int| if k <= x { mem[i + k] } else { regs[k] })
}

/// What one instruction does to the machine, the program counter included and
/// the timers not. `key_down` is what the keypad says of the key that the
/// instruction names, `key` the key that a wait obtains and `rnd` the byte
/// that the generator draws; each instruction reads at most one of them.
pub open spec fn apply(m: Machine, op: Opcode, key_down: bool, key: Key, rnd: u8) -> Result<Machine, Chip8Error> {
    let r = m.register;
    match op {
        Opcode::ClearScreen => Ok(advance(Machine { screen: blank_buffer(), ..m })),
        Opcode::Return => if m.stack.len() == 0 {
            Err(Chip8Error::StackUnderflow)
        } else {
            Ok(goto(Machine { stack: m.stack.drop_last(), ..m }, m.stack.last()))
        },
        Opcode::Jump { addr } => Ok(goto(m, addr)),
        Opcode::Call { addr } => if m.stack.len() >= STACK_DEPTH {
            Err(Chip8Error::StackOverflow)
        } else {
            Ok(goto(Machine { stack: m.stack.push(pc_plus(m.pc, 2)), ..m }, addr))
        },
        Opcode::SkipEqualByte { x, kk } => Ok(skip_if(m, r[x as int] == kk)),
        Opcode::SkipNotEqualByte { x, kk } => Ok(skip_if(m, r[x as int] != kk)),
        Opcode::SkipEqual { x, y } => Ok(skip_if(m, r[x as int] == r[y as int])),
        Opcode::SkipNotEqual { x, y } => Ok(skip_if(m, r[x as int] != r[y as int])),
        Opcode::LoadByte { x, kk } => Ok(advance(set_reg(m, x as int, kk))),
        Opcode::AddByte { x, kk } => Ok(advance(set_reg(m, x as int, ((r[x as int] + kk) % 256) as u8))),
        Opcode::Load { x, y } => Ok(advance(set_reg(m, x as int, r[y as int]))),
        Opcode::Or { x, y } => Ok(advance(set_reg(m, x as int, r[x as int] | r[y as int]))),
        Opcode::And { x, y } => Ok(advance(set_reg(m, x as int, r[x as int] & r[y as int]))),
        Opcode::Xor { x, y } => Ok(advance(set_reg(m, x as int, r[x as int] ^ r[y as int]))),
        // The flag is raised on a carry and otherwise left alone.
        Opcode::Add { x, y } => {
            let sum = r[x as int] + r[y as int];
            let m1 = set_reg(m, x as int, (sum % 256) as u8);
            Ok(advance(if sum > 255 { set_reg(m1, 0xF, 1) } else { m1 }))
        },
        Opcode::Sub { x, y } => {
            let m1 = set_reg(m, 0xF, flag(r[x as int] > r[y as int]));
            let r1 = m1.register;
            Ok(advance(set_reg(m1, x as int, ((r1[x as int] - r1[y as int]) % 256) as u8)))
        },
        Opcode::Shr { x, .. } => {
            let m1 = set_reg(m, 0xF, r[x as int] % 2);
            Ok(advance(set_reg(m1, x as int, m1.register[x as int] / 2)))
        },
        Opcode::Shl { x, .. } => {
            let m1 = set_reg(m, 0xF, r[x as int] / 128);
            Ok(advance(set_reg(m1, x as int, ((m1.register[x as int] * 2) % 256) as u8)))
        },
        // Wraps like `Sub` rather than failing when `Vy < Vx`.
        Opcode::Subn { x, y } => {
            let m1 = set_reg(m, 0xF, flag(r[y as int] > r[x as int]));
            let r1 = m1.register;
            Ok(advance(set_reg(m1, x as int, ((r1[y as int] - r1[x as int]) % 256) as u8)))
        },
        Opcode::LoadI { addr } => Ok(advance(Machine { index: addr, ..m })),
        Opcode::JumpV0 { addr } => Ok(goto(m, (addr + r[0]) as u16)),
        Opcode::Random { x, kk } => Ok(advance(set_reg(m, x as int, rnd & kk))),
        Opcode::Draw { x, y, n } => if m.index + n > MEMORY_SIZE {
            Err(Chip8Error::AddressOutOfRange)
        } else {
            let sprite = m.memory.subrange(m.index as int, m.index + n);
            let px = r[x as int] as nat;
            let py = r[y as int] as nat;
            Ok(advance(set_reg(
                Machine { screen: draw_sprite(m.screen, sprite, px, py), ..m },
                0xF,
                flag(collides(m.screen, sprite, px, py)),
            )))
        },
        Opcode::SkipKeyPressed { x } => if r[x as int] >= 16 {
            Err(Chip8Error::UnknownKey(r[x as int]))
        } else {
            Ok(skip_if(m, key_down))
        },
        Opcode::SkipKeyNotPressed { x } => if r[x as int] >= 16 {
            Err(Chip8Error::UnknownKey(r[x as int]))
        } else {
            Ok(skip_if(m, !key_down))
        },
        Opcode::LoadDelayTimer { x } => Ok(advance(set_reg(m, x as int, m.delay_timer))),
        Opcode::WaitKeyPressed { x } => Ok(set_reg(m, x as int, key.spec_value())),
        Opcode::LoadToDelayTimer { x } => Ok(advance(Machine { delay_timer: r[x as int], ..m })),
        Opcode::LoadToSoundTimer { x } => Ok(advance(Machine { sound_timer: r[x as int], ..m })),
        Opcode::AddI { x } => Ok(advance(Machine { index: ((m.index + r[x as int]) % 0x10000) as u16, ..m })),
        Opcode::LoadSprite { x } => Ok(advance(Machine { index: (r[x as int] * 5) as u16, ..m })),
        Opcode::LoadBCD { x } => if m.index + 3 > MEMORY_SIZE {
            Err(Chip8Error::AddressOutOfRange)
        } else {
            let v = r[x as int];
            let i = m.index as int;
            Ok(advance(Machine {
                memory: m.memory.update(i, v / 100).update(i + 1, (v / 10) % 10).update(i + 2, v % 10),
                ..m
            }))
        },
        Opcode::SaveRegisters { x } => if m.index + x + 1 > MEMORY_SIZE {
            Err(Chip8Error::AddressOutOfRange)
        } else {
            Ok(advance(Machine { memory: store_registers(m.memory, r, m.index as int, x as int), ..m }))
        },
        Opcode::LoadRegisters { x } => if m.index + x + 1 > MEMORY_SIZE {
            Err(Chip8Error::AddressOutOfRange)
        } else {
            Ok(advance(Machine { register: load_registers(r, m.memory, m.index as int, x as int), ..m }))
        },
    }
}

/// Both timers count down by one, stopping at zero.
pub open spec fn tick(m: Machine) -> Machine {
    Machine {
        delay_timer: if m.delay_timer > 0 { (m.delay_timer - 1) as u8 } else { 0 },
        sound_timer: if m.sound_timer > 0 { (m.sound_timer - 1) as u8 } else { 0 },
        ..m
    }
}

/// One executed instruction followed by the timers' tick.
pub open spec fn step(m: Machine, op: Opcode, key_down: bool, key: Key, rnd: u8) -> Result<Machine, Chip8Error> {
    match apply(m, op, key_down, key, rnd) {
        Ok(m1) => Ok(tick(m1)),
        Err(e) => Err(e),
    }
}

/// Memory after loading: the font at the start, `rom` from `PROGRAM_START`
/// on, every other byte as it was.
pub open spec fn load_image(mem: Seq<u8>, rom: Seq<u8>) -> Seq<u8> {
    Seq::new(
        mem.len(),
        |a: int|
            if a < font().len() {
                font()[a]
            } else if PROGRAM_START <= a < PROGRAM_START + rom.len() {
                rom[a - PROGRAM_START]
            } else {
                mem[a]
            },
    )
}

/// The machine as it is created: memory, registers and timers at zero, the
/// program counter at `PROGRAM_START`, no return address, a blank screen.
pub open spec fn initial_machine() -> Machine {
    Machine {
        memory: Seq::new(MEMORY_SIZE as nat, |a: int| 0u8),
        register: Seq::new(16, |i: int| 0u8),
        index: 0,
        pc: PROGRAM_START as u16,
        stack: Seq::empty(),
        delay_timer: 0,
        sound_timer: 0,
        screen: blank_buffer(),
    }
}

/// Whether a call that computed `s` from `before`, returned `r` and left
/// `after` behind did what `s` says: on success the new state, on failure the
/// error with the state untouched.
pub open spec fn executed(
    before: Machine,
    s: Result<Machine, Chip8Error>,
    r: Result<(), Chip8Error>,
    after: Machine,
) -> bool {
    match s {
        Ok(m) => r is Ok && after == m,
        Err(e) => r == Err::<(), Chip8Error>(e) && after == before,
    }
}

/// A jump sets the program counter to its address exactly, with no further
/// increment.
pub proof fn lemma_jump_sets_pc(m: Machine, addr: u16, key_down: bool, key: Key, rnd: u8)
    ensures
        step(m, Opcode::Jump { addr }, key_down, key, rnd) matches Ok(m2) && m2.pc == addr,
{
}

/// A byte compare skips the next instruction (program counter plus 4) when
/// the register holds the byte, and moves on to it (plus 2) when not.
pub proof fn lemma_skip_equal_byte(m: Machine, x: usize, kk: u8, key_down: bool, key: Key, rnd: u8)
    requires
        x < 16,
        m.register.len() == 16,
    ensures
        step(m, Opcode::SkipEqualByte { x, kk }, key_down, key, rnd) matches Ok(m2) && m2.pc == (
        if m.register[x as int] == kk {
            pc_plus(m.pc, 4)
        } else {
            pc_plus(m.pc, 2)
        }),
{
}

/// A call followed at once by a return resumes at the instruction after the
/// call, with the stack as it was.
pub proof fn lemma_call_then_return(m: Machine, addr: u16, key_down: bool, key: Key, rnd: u8)
    requires
        m.stack.len() < STACK_DEPTH,
    ensures
        step(m, Opcode::Call { addr }, key_down, key, rnd) matches Ok(m1) && step(
            m1,
            Opcode::Return,
            key_down,
            key,
            rnd,
        ) matches Ok(m2) && m2.pc == pc_plus(m.pc, 2) && m2.stack == m.stack,
{
    let m1 = tick(goto(Machine { stack: m.stack.push(pc_plus(m.pc, 2)), ..m }, addr));
    assert(m1.stack.drop_last() =~= m.stack);
}

} // verus!
