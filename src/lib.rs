//! An interpreter for the CHIP-8 virtual machine: an opcode decoder, a
//! monochrome virtual screen with XOR sprite blitting, and an execution
//! engine whose every step is stated over a mathematical model of the
//! machine.

pub mod opcode;
mod keyboard;
pub mod machine;
pub mod screen;

pub use keyboard::{Key, Keyboard};
pub use screen::{Window, HEIGHT, WIDTH, VirtualScreen};
pub use machine::Chip8Error;

use rand::rngs::SmallRng;
use rand::{RngCore, SeedableRng};
use vstd::prelude::*;
use machine::{
    apply, executed, fetch_spec, font, initial_machine, load_image, pc_plus, step, store_registers,
    load_registers, Machine, MEMORY_SIZE, PROGRAM_START, STACK_DEPTH,
};
use opcode::Opcode;

verus! {

/// rand's `SmallRng`, carried by the engine as an opaque value.
#[verifier::external_type_specification]
#[verifier::external_body]
pub struct ExSmallRng(SmallRng);

/// Seed of the generator that `Random` draws from. With a fixed seed the bytes
/// drawn repeat from run to run on one platform and one version of rand; rand
/// does not promise the same bytes across platforms or versions.
pub const RANDOM_SEED: u64 = 0x649bba8a048482fd;

/// Relies on rand's `SeedableRng::seed_from_u64` for `SmallRng`: a generator
/// built from the seed. Nothing is stated of the bytes it will draw.
#[verifier::external_body]
fn seeded_rng(seed: u64) -> SmallRng {
    SmallRng::seed_from_u64(seed)
}

/// Relies on rand's `RngCore::fill_bytes` for `SmallRng`: one byte drawn from
/// the generator. Nothing is known of its value.
#[verifier::external_body]
fn random_byte(rng: &mut SmallRng) -> u8 {
    let mut rnd: [u8; 1] = [0];
    rng.fill_bytes(&mut rnd);
    rnd[0]
}

/// The font table, to be copied to the start of memory.
fn font_set() -> (r: Vec<u8>)
    ensures
        r@ == font(),
{
    let r = vec![
        0xF0u8, 0x90, 0x90, 0x90, 0xF0,
        0x20, 0x60, 0x20, 0x20, 0x70,
        0xF0, 0x10, 0xF0, 0x80, 0xF0,
        0xF0, 0x10, 0xF0, 0x10, 0xF0,
        0x90, 0x90, 0xF0, 0x10, 0x10,
        0xF0, 0x80, 0xF0, 0x10, 0xF0,
        0xF0, 0x80, 0xF0, 0x90, 0xF0,
        0xF0, 0x10, 0x20, 0x40, 0x40,
        0xF0, 0x90, 0xF0, 0x90, 0xF0,
        0xF0, 0x90, 0xF0, 0x10, 0xF0,
        0xF0, 0x90, 0xF0, 0x90, 0x90,
        0xE0, 0x90, 0xE0, 0x90, 0xE0,
        0xF0, 0x80, 0x80, 0x80, 0xF0,
        0xE0, 0x90, 0x90, 0x90, 0xE0,
        0xF0, 0x80, 0xF0, 0x80, 0xF0,
        0xF0, 0x80, 0xF0, 0x80, 0x80,
    ];
    assert(r@ =~= font());
    r
}

/// Any backend that is both a display and a keypad.
pub trait IO: Keyboard + Window {}

/// The CHIP-8 engine: memory, registers, timers, call stack and screen, and
/// the backend it shows frames on and reads keys from.
pub struct Chip8<T: Window + Keyboard> {
    memory: Vec<u8>,
    register: Vec<u8>,
    index: u16,
    pc: u16,
    stack: Vec<u16>,
    screen: VirtualScreen,
    io: T,
    delay_timer: u8,
    sound_timer: u8,
    random: SmallRng,
}

impl<T: Window + Keyboard> Chip8<T> {
    /// Sizes in place: 4096 bytes of memory, 16 registers, at most 16 return
    /// addresses, a full screen.
    pub closed spec fn wf(&self) -> bool {
        &&& self.memory@.len() == MEMORY_SIZE
        &&& self.register@.len() == 16
        &&& self.stack@.len() <= STACK_DEPTH
        &&& self.screen.wf()
    }

    /// The backend the engine shows frames on and reads keys from.
    pub closed spec fn backend(&self) -> T {
        self.io
    }

    /// The machine's state as the model sees it.
    pub closed spec fn state(&self) -> Machine {
        Machine {
            memory: self.memory@,
            register: self.register@,
            index: self.index,
            pc: self.pc,
            stack: self.stack@,
            delay_timer: self.delay_timer,
            sound_timer: self.sound_timer,
            screen: self.screen.buffer@,
        }
    }
}

impl<T: Window + Keyboard> Chip8<T> {
    /// A fresh machine on the backend `io`.
    pub fn new(io: T) -> (r: Chip8<T>)
        ensures
            r.wf(),
            r.state() == initial_machine(),
            r.backend() == io,
    {
        let r = Chip8 {
            memory: vec![0u8; MEMORY_SIZE],
            register: vec![0u8; 16],
            index: 0,
            pc: PROGRAM_START as u16,
            stack: Vec::new(),
            screen: VirtualScreen::new(),
            io,
            delay_timer: 0,
            sound_timer: 0,
            random: seeded_rng(RANDOM_SEED),
        };
        assert(r.state().memory =~= initial_machine().memory);
        assert(r.state().register =~= initial_machine().register);
        assert(r.state().stack =~= initial_machine().stack);
        r
    }

    /// Copies the font to the start of memory and `rom` to `PROGRAM_START`.
    pub fn init(&mut self, rom: &[u8])
        requires
            old(self).wf(),
            rom@.len() <= MEMORY_SIZE - PROGRAM_START,
        ensures
            final(self).wf(),
            final(self).state() == (Machine {
                memory: load_image(old(self).state().memory, rom@),
                ..old(self).state()
            }),
    {
        let ghost s0 = self.state();
        let ghost mem0 = self.memory@;
        let fontset = font_set();
        let mut a: usize = 0;
        while a < fontset.len()
            invariant
                fontset@ == font(),
                a <= fontset@.len(),
                self.wf(),
                self.state() == (Machine { memory: self.memory@, ..s0 }),
                self.memory@ == Seq::new(
                    MEMORY_SIZE as nat,
                    |j: int| if j < a { font()[j] } else { mem0[j] },
                ),
            decreases fontset@.len() - a,
        {
            self.memory.set(a, fontset[a]);
            a += 1;
            assert(self.memory@ =~= Seq::new(
                MEMORY_SIZE as nat,
                |j: int| if j < a { font()[j] } else { mem0[j] },
            ));
        }
        let ghost mem1 = self.memory@;
        let mut k: usize = 0;
        while k < rom.len()
            invariant
                k <= rom@.len(),
                rom@.len() <= MEMORY_SIZE - PROGRAM_START,
                self.wf(),
                self.state() == (Machine { memory: self.memory@, ..s0 }),
                self.memory@ == Seq::new(
                    MEMORY_SIZE as nat,
                    |j: int| if PROGRAM_START <= j < PROGRAM_START + k { rom@[j - PROGRAM_START] } else { mem1[j] },
                ),
            decreases rom@.len() - k,
        {
            self.memory.set(PROGRAM_START + k, rom[k]);
            k += 1;
            assert(self.memory@ =~= Seq::new(
                MEMORY_SIZE as nat,
                |j: int| if PROGRAM_START <= j < PROGRAM_START + k { rom@[j - PROGRAM_START] } else { mem1[j] },
            ));
        }
        assert(self.memory@ =~= load_image(mem0, rom@));
    }

    /// Moves on to the next instruction.
    fn next(&mut self)
        ensures
            final(self).state() == (Machine { pc: pc_plus(old(self).pc, 2), ..old(self).state() }),
            final(self).wf() == old(self).wf(),
    {
        self.pc = self.pc.wrapping_add(2);
    }

    /// Skips the next instruction when `cond` holds.
    fn skip_when(&mut self, cond: bool)
        ensures
            final(self).state() == (Machine {
                pc: pc_plus(old(self).pc, if cond { 4 } else { 2 }),
                ..old(self).state()
            }),
            final(self).wf() == old(self).wf(),
    {
        if cond {
            self.pc = self.pc.wrapping_add(4);
        } else {
            self.pc = self.pc.wrapping_add(2);
        }
    }

    fn set_register(&mut self, i: usize, v: u8)
        requires
            old(self).wf(),
            i < 16,
        ensures
            final(self).wf(),
            final(self).state() == (Machine {
                register: old(self).state().register.update(i as int, v),
                ..old(self).state()
            }),
    {
        self.register.set(i, v);
    }

    /// Executes one instruction: its effect and the program counter's move,
    /// the timers aside.
    #[verifier::rlimit(50)]
    fn apply_op(&mut self, op: Opcode, key_down: bool, key: Key, rnd: u8) -> (r: Result<(), Chip8Error>)
        requires
            old(self).wf(),
            op.wf(),
        ensures
            final(self).wf(),
            executed(old(self).state(), apply(old(self).state(), op, key_down, key, rnd), r, final(self).state()),
    {
        let ghost s0 = self.state();
        match op {
            Opcode::ClearScreen => {
                self.screen.clear();
                self.next();
            },
            Opcode::Return => {
                if self.stack.len() == 0 {
                    return Err(Chip8Error::StackUnderflow);
                }
                let addr = self.stack.pop().unwrap();
                self.pc = addr;
            },
            Opcode::Jump { addr } => {
                self.pc = addr;
            },
            Opcode::Call { addr } => {
                if self.stack.len() >= STACK_DEPTH {
                    return Err(Chip8Error::StackOverflow);
                }
                self.stack.push(self.pc.wrapping_add(2));
                self.pc = addr;
            },
            Opcode::SkipEqualByte { x, kk } => {
                let c = self.register[x] == kk;
                self.skip_when(c);
            },
            Opcode::SkipNotEqualByte { x, kk } => {
                let c = self.register[x] != kk;
                self.skip_when(c);
            },
            Opcode::SkipEqual { x, y } => {
                let c = self.register[x] == self.register[y];
                self.skip_when(c);
            },
            Opcode::SkipNotEqual { x, y } => {
                let c = self.register[x] != self.register[y];
                self.skip_when(c);
            },
            Opcode::LoadByte { x, kk } => {
                self.set_register(x, kk);
                self.next();
            },
            Opcode::AddByte { x, kk } => {
                let v = self.register[x].wrapping_add(kk);
                self.set_register(x, v);
                self.next();
            },
            Opcode::Load { x, y } => {
                let v = self.register[y];
                self.set_register(x, v);
                self.next();
            },
            Opcode::Or { x, y } => {
                let v = self.register[x] | self.register[y];
                self.set_register(x, v);
                self.next();
            },
            Opcode::And { x, y } => {
                let v = self.register[x] & self.register[y];
                self.set_register(x, v);
                self.next();
            },
            Opcode::Xor { x, y } => {
                let v = self.register[x] ^ self.register[y];
                self.set_register(x, v);
                self.next();
            },
            Opcode::Add { x, y } => {
                let a = self.register[x];
                let b = self.register[y];
                let v = a.wrapping_add(b);
                self.set_register(x, v);
                if a as u16 + b as u16 > 255 {
                    self.set_register(0xF, 1);
                }
                self.next();
            },
            Opcode::Sub { x, y } => {
                let f: u8 = if self.register[x] > self.register[y] { 1 } else { 0 };
                self.set_register(0xF, f);
                let v = self.register[x].wrapping_sub(self.register[y]);
                self.set_register(x, v);
                self.next();
            },
            Opcode::Shr { x, .. } => {
                let f = self.register[x] % 2;
                self.set_register(0xF, f);
                let v = self.register[x] / 2;
                self.set_register(x, v);
                self.next();
            },
            Opcode::Shl { x, .. } => {
                let f = self.register[x] / 128;
                self.set_register(0xF, f);
                let v = self.register[x].wrapping_mul(2);
                self.set_register(x, v);
                self.next();
            },
            Opcode::Subn { x, y } => {
                let f: u8 = if self.register[y] > self.register[x] { 1 } else { 0 };
                self.set_register(0xF, f);
                let v = self.register[y].wrapping_sub(self.register[x]);
                self.set_register(x, v);
                self.next();
            },
            Opcode::LoadI { addr } => {
                self.index = addr;
                self.next();
            },
            Opcode::JumpV0 { addr } => {
                self.pc = addr + self.register[0] as u16;
            },
            Opcode::Random { x, kk } => {
                self.set_register(x, rnd & kk);
                self.next();
            },
            Opcode::Draw { x, y, n } => {
                let i = self.index as usize;
                if i + n > MEMORY_SIZE {
                    return Err(Chip8Error::AddressOutOfRange);
                }
                let px = self.register[x] as usize;
                let py = self.register[y] as usize;
                let mut vf: u8 = 0;
                let sprite = vstd::slice::slice_subrange(self.memory.as_slice(), i, i + n);
                self.screen.display(sprite, px, py, &mut vf);
                self.set_register(0xF, vf);
                self.next();
            },
            Opcode::SkipKeyPressed { x } => {
                if self.register[x] >= 16 {
                    return Err(Chip8Error::UnknownKey(self.register[x]));
                }
                self.skip_when(key_down);
            },
            Opcode::SkipKeyNotPressed { x } => {
                if self.register[x] >= 16 {
                    return Err(Chip8Error::UnknownKey(self.register[x]));
                }
                self.skip_when(!key_down);
            },
            Opcode::LoadDelayTimer { x } => {
                let v = self.delay_timer;
                self.set_register(x, v);
                self.next();
            },
            Opcode::WaitKeyPressed { x } => {
                self.set_register(x, key.value());
            },
            Opcode::LoadToDelayTimer { x } => {
                self.delay_timer = self.register[x];
                self.next();
            },
            Opcode::LoadToSoundTimer { x } => {
                self.sound_timer = self.register[x];
                self.next();
            },
            Opcode::AddI { x } => {
                self.index = self.index.wrapping_add(self.register[x] as u16);
                self.next();
            },
            Opcode::LoadSprite { x } => {
                self.index = self.register[x] as u16 * 5;
                self.next();
            },
            Opcode::LoadBCD { x } => {
                let i = self.index as usize;
                if i + 3 > MEMORY_SIZE {
                    return Err(Chip8Error::AddressOutOfRange);
                }
                let v = self.register[x];
                self.memory.set(i, v / 100);
                self.memory.set(i + 1, (v / 10) % 10);
                self.memory.set(i + 2, v % 10);
                self.next();
            },
            Opcode::SaveRegisters { x } => {
                let i = self.index as usize;
                if i + x + 1 > MEMORY_SIZE {
                    return Err(Chip8Error::AddressOutOfRange);
                }
                let ghost regs = self.register@;
                let ghost mem0 = self.memory@;
                let mut k: usize = 0;
                while k <= x
                    invariant
                        x < 16,
                        k <= x + 1,
                        i == s0.index,
                        i + x + 1 <= MEMORY_SIZE,
                        self.wf(),
                        regs == s0.register,
                        mem0 == s0.memory,
                        self.state() == (Machine { memory: self.memory@, ..s0 }),
                        self.memory@ == Seq::new(
                            MEMORY_SIZE as nat,
                            |a: int| if i <= a < i + k { regs[a - i] } else { mem0[a] },
                        ),
                    decreases x + 1 - k,
                {
                    let v = self.register[k];
                    self.memory.set(i + k, v);
                    k += 1;
                    assert(self.memory@ =~= Seq::new(
                        MEMORY_SIZE as nat,
                        |a: int| if i <= a < i + k { regs[a - i] } else { mem0[a] },
                    ));
                }
                assert(self.memory@ =~= store_registers(mem0, regs, i as int, x as int));
                self.next();
            },
            Opcode::LoadRegisters { x } => {
                let i = self.index as usize;
                if i + x + 1 > MEMORY_SIZE {
                    return Err(Chip8Error::AddressOutOfRange);
                }
                let ghost regs = self.register@;
                let ghost mem0 = self.memory@;
                let mut k: usize = 0;
                while k <= x
                    invariant
                        x < 16,
                        k <= x + 1,
                        i == s0.index,
                        i + x + 1 <= MEMORY_SIZE,
                        self.wf(),
                        regs == s0.register,
                        mem0 == s0.memory,
                        self.state() == (Machine { register: self.register@, ..s0 }),
                        self.register@ == Seq::new(
                            16,
                            |j: int| if j < k { mem0[i + j] } else { regs[j] },
                        ),
                    decreases x + 1 - k,
                {
                    let v = self.memory[i + k];
                    self.register.set(k, v);
                    k += 1;
                    assert(self.register@ =~= Seq::new(
                        16,
                        |j: int| if j < k { mem0[i + j] } else { regs[j] },
                    ));
                }
                assert(self.register@ =~= load_registers(regs, mem0, i as int, x as int));
                self.next();
            },
        }
        Ok(())
    }

    /// Counts both timers down by one, stopping at zero.
    fn tick_timers(&mut self)
        requires
            old(self).wf(),
        ensures
            final(self).wf(),
            final(self).state() == machine::tick(old(self).state()),
    {
        if self.delay_timer != 0 {
            self.delay_timer -= 1;
        }
        if self.sound_timer != 0 {
            self.sound_timer -= 1;
        }
    }

    /// Executes `op` and then ticks the timers. `key_down` is taken as the
    /// state of the key that a key-skip names, `key` as the key that a key
    /// wait obtains and `rnd` as the byte that `Random` draws. On an error
    /// nothing changes.
    pub fn execute(&mut self, op: Opcode, key_down: bool, key: Key, rnd: u8) -> (r: Result<(), Chip8Error>)
        requires
            old(self).wf(),
            op.wf(),
        ensures
            final(self).wf(),
            executed(old(self).state(), step(old(self).state(), op, key_down, key, rnd), r, final(self).state()),
    {
        let r = self.apply_op(op, key_down, key, rnd);
        if r.is_ok() {
            self.tick_timers();
        }
        r
    }

    /// Reads and decodes the instruction at the program counter.
    fn fetch(&self) -> (r: Result<Opcode, Chip8Error>)
        requires
            self.wf(),
        ensures
            r == fetch_spec(self.state()),
            r matches Ok(op) ==> op.wf(),
    {
        let pc = self.pc as usize;
        if pc + 1 >= MEMORY_SIZE {
            return Err(Chip8Error::AddressOutOfRange);
        }
        let hi = self.memory[pc] as u16;
        let lo = self.memory[pc + 1] as u16;
        let word = hi * 256 + lo;
        match Opcode::decode(word) {
            Ok(op) => Ok(op),
            Err(e) => Err(Chip8Error::Decode(e)),
        }
    }

    /// One cycle: fetch the instruction at the program counter, decode it,
    /// execute it and tick the timers. A key-skip polls the backend for the
    /// key its register names, a key wait blocks on the backend, `Random`
    /// draws a byte from the generator.
    pub fn cycle(&mut self) -> (r: Result<(), Chip8Error>)
        requires
            old(self).wf(),
        ensures
            final(self).wf(),
            match fetch_spec(old(self).state()) {
                Err(e) => r == Err::<(), Chip8Error>(e) && final(self).state() == old(self).state(),
                Ok(op) => exists|key_down: bool, key: Key, rnd: u8|
                    executed(
                        old(self).state(),
                        #[trigger] step(old(self).state(), op, key_down, key, rnd),
                        r,
                        final(self).state(),
                    ),
            },
    {
        let op = match self.fetch() {
            Ok(op) => op,
            Err(e) => return Err(e),
        };
        let mut key_down = false;
        let mut key = Key::Key0;
        let mut rnd: u8 = 0;
        match op {
            Opcode::SkipKeyPressed { x } | Opcode::SkipKeyNotPressed { x } => {
                if let Some(k) = Key::from_u8(self.register[x]) {
                    key_down = self.io.is_key_down(k);
                }
            },
            Opcode::WaitKeyPressed { .. } => {
                key = self.io.wait_key_down();
            },
            Opcode::Random { .. } => {
                rnd = random_byte(&mut self.random);
            },
            _ => {},
        }
        let ghost before = self.state();
        let r = self.execute(op, key_down, key, rnd);
        assert(executed(before, step(before, op, key_down, key, rnd), r, self.state()));
        r
    }

    /// Hands the screen buffer, `WIDTH` x `HEIGHT` cells, to the backend as
    /// the frame to show.
    pub fn display(&mut self)
        requires
            old(self).wf(),
        ensures
            final(self).wf(),
            final(self).state() == old(self).state(),
            final(self).backend().shown() == old(self).state().screen,
            final(self).backend().shown_size() == (WIDTH, HEIGHT),
    {
        self.io.update_with_buffer(self.screen.buffer.as_slice(), WIDTH, HEIGHT);
    }

    /// Whether the backend still runs.
    pub fn is_running(&mut self) -> (r: bool)
        requires
            old(self).wf(),
        ensures
            final(self).wf(),
            final(self).state() == old(self).state(),
    {
        self.io.is_running()
    }

    pub fn pc(&self) -> (r: u16)
        ensures
            r == self.state().pc,
    {
        self.pc
    }

    pub fn index(&self) -> (r: u16)
        ensures
            r == self.state().index,
    {
        self.index
    }

    pub fn register(&self, i: usize) -> (r: u8)
        requires
            self.wf(),
            i < 16,
        ensures
            r == self.state().register[i as int],
    {
        self.register[i]
    }

    pub fn memory(&self, addr: usize) -> (r: u8)
        requires
            self.wf(),
            addr < MEMORY_SIZE,
        ensures
            r == self.state().memory[addr as int],
    {
        self.memory[addr]
    }

    pub fn delay_timer(&self) -> (r: u8)
        ensures
            r == self.state().delay_timer,
    {
        self.delay_timer
    }

    pub fn sound_timer(&self) -> (r: u8)
        ensures
            r == self.state().sound_timer,
    {
        self.sound_timer
    }

    /// How many return addresses are on the stack.
    pub fn stack_depth(&self) -> (r: usize)
        ensures
            r == self.state().stack.len(),
    {
        self.stack.len()
    }

    /// The screen's pixel buffer, row by row.
    pub fn buffer(&self) -> (r: &[u8])
        ensures
            r@ == self.state().screen,
    {
        self.screen.buffer.as_slice()
    }
}

} // verus!
