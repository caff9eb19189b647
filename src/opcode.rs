use vstd::prelude::*;

verus! {

/// One decoded CHIP-8 instruction, with only the operands it needs.
///
/// `x` and `y` are register indices, `addr` a 12-bit address, `kk` an
/// immediate byte and `n` a sprite height in rows.
#[derive(Clone, Copy, Debug, PartialEq, Eq, Structural)]
pub enum Opcode {
    ClearScreen,
    Return,
    Jump { addr: u16 },
    Call { addr: u16 },
    SkipEqualByte { x: usize, kk: u8 },
    SkipNotEqualByte { x: usize, kk: u8 },
    SkipEqual { x: usize, y: usize },
    SkipNotEqual { x: usize, y: usize },
    LoadByte { x: usize, kk: u8 },
    AddByte { x: usize, kk: u8 },
    Load { x: usize, y: usize },
    Or { x: usize, y: usize },
    And { x: usize, y: usize },
    Xor { x: usize, y: usize },
    /// `Vx += Vy` wrapping at 8 bits. VF is set to 1 on a carry and left as
    /// it was otherwise (it is not cleared when there is no carry).
    Add { x: usize, y: usize },
    /// `Vx -= Vy` wrapping at 8 bits; VF is first set to 1 when `Vx > Vy`,
    /// else to 0.
    Sub { x: usize, y: usize },
    Shr { x: usize, y: usize },
    Shl { x: usize, y: usize },
    /// `Vx = Vy - Vx` wrapping at 8 bits, the same policy as `Sub`; VF is
    /// first set to 1 when `Vy > Vx`, else to 0.
    Subn { x: usize, y: usize },
    LoadI { addr: u16 },
    JumpV0 { addr: u16 },
    Random { x: usize, kk: u8 },
    Draw { x: usize, y: usize, n: usize },
    SkipKeyPressed { x: usize },
    SkipKeyNotPressed { x: usize },
    LoadDelayTimer { x: usize },
    WaitKeyPressed { x: usize },
    LoadToDelayTimer { x: usize },
    LoadToSoundTimer { x: usize },
    AddI { x: usize },
    LoadSprite { x: usize },
    LoadBCD { x: usize },
    SaveRegisters { x: usize },
    LoadRegisters { x: usize },
}

/// Why a 16-bit word is not an instruction.
#[derive(Clone, Copy, Debug, PartialEq, Eq, Structural)]
pub enum ParseOpcodeError {
    UnknownOpcode(u16),
}

/// The address field: the low 12 bits of the word.
pub open spec fn addr_of(w: u16) -> u16 {
    (w % 4096) as u16
}

/// The `x` field: bits 8 to 11.
pub open spec fn x_of(w: u16) -> usize {
    ((w / 256) % 16) as usize
}

/// The `y` field: bits 4 to 7.
pub open spec fn y_of(w: u16) -> usize {
    ((w / 16) % 16) as usize
}

/// The `kk` field: the low byte.
pub open spec fn kk_of(w: u16) -> u8 {
    (w % 256) as u8
}

/// The `n` field: the low 4 bits.
pub open spec fn n_of(w: u16) -> usize {
    (w % 16) as usize
}

/// What the word `w` decodes to.
pub open spec fn decode_spec(w: u16) -> Result<Opcode, ParseOpcodeError> {
    let addr = addr_of(w);
    let x = x_of(w);
    let y = y_of(w);
    let kk = kk_of(w);
    let n = n_of(w);
    let family = w / 4096;
    let unknown = Err(ParseOpcodeError::UnknownOpcode(w));
    if family == 0x0 {
        if w == 0x00E0 {
            Ok(Opcode::ClearScreen)
        } else if w == 0x00EE {
            Ok(Opcode::Return)
        } else {
            Ok(Opcode::Jump { addr })
        }
    } else if family == 0x1 {
        Ok(Opcode::Jump { addr })
    } else if family == 0x2 {
        Ok(Opcode::Call { addr })
    } else if family == 0x3 {
        Ok(Opcode::SkipEqualByte { x, kk })
    } else if family == 0x4 {
        Ok(Opcode::SkipNotEqualByte { x, kk })
    } else if family == 0x5 {
        Ok(Opcode::SkipEqual { x, y })
    } else if family == 0x6 {
        Ok(Opcode::LoadByte { x, kk })
    } else if family == 0x7 {
        Ok(Opcode::AddByte { x, kk })
    } else if family == 0x8 {
        if n == 0x0 {
            Ok(Opcode::Load { x, y })
        } else if n == 0x1 {
            Ok(Opcode::Or { x, y })
        } else if n == 0x2 {
            Ok(Opcode::And { x, y })
        } else if n == 0x3 {
            Ok(Opcode::Xor { x, y })
        } else if n == 0x4 {
            Ok(Opcode::Add { x, y })
        } else if n == 0x5 {
            Ok(Opcode::Sub { x, y })
        } else if n == 0x6 {
            Ok(Opcode::Shr { x, y })
        } else if n == 0x7 {
            Ok(Opcode::Subn { x, y })
        } else if n == 0xE {
            Ok(Opcode::Shl { x, y })
        } else {
            unknown
        }
    } else if family == 0x9 {
        Ok(Opcode::SkipNotEqual { x, y })
    } else if family == 0xA {
        Ok(Opcode::LoadI { addr })
    } else if family == 0xB {
        Ok(Opcode::JumpV0 { addr })
    } else if family == 0xC {
        Ok(Opcode::Random { x, kk })
    } else if family == 0xD {
        Ok(Opcode::Draw { x, y, n })
    } else if family == 0xE {
        if kk == 0x9E {
            Ok(Opcode::SkipKeyPressed { x })
        } else if kk == 0xA1 {
            Ok(Opcode::SkipKeyNotPressed { x })
        } else {
            unknown
        }
    } else {
        if kk == 0x07 {
            Ok(Opcode::LoadDelayTimer { x })
        } else if kk == 0x0A {
            Ok(Opcode::WaitKeyPressed { x })
        } else if kk == 0x15 {
            Ok(Opcode::LoadToDelayTimer { x })
        } else if kk == 0x18 {
            Ok(Opcode::LoadToSoundTimer { x })
        } else if kk == 0x1E {
            Ok(Opcode::AddI { x })
        } else if kk == 0x29 {
            Ok(Opcode::LoadSprite { x })
        } else if kk == 0x33 {
            Ok(Opcode::LoadBCD { x })
        } else if kk == 0x55 {
            Ok(Opcode::SaveRegisters { x })
        } else if kk == 0x65 {
            Ok(Opcode::LoadRegisters { x })
        } else {
            unknown
        }
    }
}

proof fn lemma_fields(w: u16)
    ensures
        w & 0xFFF == w % 4096,
        (w >> 8u16) & 0xF == (w / 256) % 16,
        (w >> 4u16) & 0xF == (w / 16) % 16,
        w & 0xFF == w % 256,
        w & 0xF == w % 16,
        w >> 12u16 == w / 4096,
        w / 4096 < 16,
{
    assert(w & 0xFFF == w % 4096) by (bit_vector);
    assert((w >> 8u16) & 0xF == (w / 256) % 16) by (bit_vector);
    assert((w >> 4u16) & 0xF == (w / 16) % 16) by (bit_vector);
    assert(w & 0xFF == w % 256) by (bit_vector);
    assert(w & 0xF == w % 16) by (bit_vector);
    assert(w >> 12u16 == w / 4096) by (bit_vector);
}

impl Opcode {
    /// Operands in range: registers below 16, addresses below 4096, heights
    /// below 16. Every decoded instruction has them.
    pub open spec fn wf(self) -> bool {
        match self {
            Opcode::Jump { addr } | Opcode::Call { addr } | Opcode::LoadI { addr }
            | Opcode::JumpV0 { addr } => addr < 4096,
            Opcode::SkipEqualByte { x, .. } | Opcode::SkipNotEqualByte { x, .. }
            | Opcode::LoadByte { x, .. } | Opcode::AddByte { x, .. }
            | Opcode::Random { x, .. } => x < 16,
            Opcode::SkipEqual { x, y } | Opcode::SkipNotEqual { x, y } | Opcode::Load { x, y }
            | Opcode::Or { x, y } | Opcode::And { x, y } | Opcode::Xor { x, y }
            | Opcode::Add { x, y } | Opcode::Sub { x, y } | Opcode::Shr { x, y }
            | Opcode::Shl { x, y } | Opcode::Subn { x, y } => x < 16 && y < 16,
            Opcode::Draw { x, y, n } => x < 16 && y < 16 && n < 16,
            Opcode::SkipKeyPressed { x } | Opcode::SkipKeyNotPressed { x }
            | Opcode::LoadDelayTimer { x } | Opcode::WaitKeyPressed { x }
            | Opcode::LoadToDelayTimer { x } | Opcode::LoadToSoundTimer { x }
            | Opcode::AddI { x } | Opcode::LoadSprite { x } | Opcode::LoadBCD { x }
            | Opcode::SaveRegisters { x } | Opcode::LoadRegisters { x } => x < 16,
            Opcode::ClearScreen | Opcode::Return => true,
        }
    }

    /// Decodes one big-endian instruction word.
    pub fn decode(opcode: u16) -> (r: Result<Opcode, ParseOpcodeError>)
        ensures
            r == decode_spec(opcode),
            r matches Ok(op) ==> op.wf(),
    {
        proof {
            lemma_fields(opcode);
        }
        let addr = opcode & 0xFFF;
        let x = ((opcode >> 8) & 0xF) as usize;
        let y = ((opcode >> 4) & 0xF) as usize;
        let kk = (opcode & 0xFF) as u8;
        let n = (opcode & 0xF) as usize;
        let unknown = Err(ParseOpcodeError::UnknownOpcode(opcode));

        match opcode >> 12 {
            0x0 => if opcode == 0x00E0 {
                Ok(Opcode::ClearScreen)
            } else if opcode == 0x00EE {
                Ok(Opcode::Return)
            } else {
                Ok(Opcode::Jump { addr })
            },
            0x1 => Ok(Opcode::Jump { addr }),
            0x2 => Ok(Opcode::Call { addr }),
            0x3 => Ok(Opcode::SkipEqualByte { x, kk }),
            0x4 => Ok(Opcode::SkipNotEqualByte { x, kk }),
            0x5 => Ok(Opcode::SkipEqual { x, y }),
            0x6 => Ok(Opcode::LoadByte { x, kk }),
            0x7 => Ok(Opcode::AddByte { x, kk }),
            0x8 => match n {
                0x0 => Ok(Opcode::Load { x, y }),
                0x1 => Ok(Opcode::Or { x, y }),
                0x2 => Ok(Opcode::And { x, y }),
                0x3 => Ok(Opcode::Xor { x, y }),
                0x4 => Ok(Opcode::Add { x, y }),
                0x5 => Ok(Opcode::Sub { x, y }),
                0x6 => Ok(Opcode::Shr { x, y }),
                0x7 => Ok(Opcode::Subn { x, y }),
                0xE => Ok(Opcode::Shl { x, y }),
                _ => unknown,
            },
            0x9 => Ok(Opcode::SkipNotEqual { x, y }),
            0xA => Ok(Opcode::LoadI { addr }),
            0xB => Ok(Opcode::JumpV0 { addr }),
            0xC => Ok(Opcode::Random { x, kk }),
            0xD => Ok(Opcode::Draw { x, y, n }),
            0xE => match kk {
                0x9E => Ok(Opcode::SkipKeyPressed { x }),
                0xA1 => Ok(Opcode::SkipKeyNotPressed { x }),
                _ => unknown,
            },
            _ => match kk {
                0x07 => Ok(Opcode::LoadDelayTimer { x }),
                0x0A => Ok(Opcode::WaitKeyPressed { x }),
                0x15 => Ok(Opcode::LoadToDelayTimer { x }),
                0x18 => Ok(Opcode::LoadToSoundTimer { x }),
                0x1E => Ok(Opcode::AddI { x }),
                0x29 => Ok(Opcode::LoadSprite { x }),
                0x33 => Ok(Opcode::LoadBCD { x }),
                0x55 => Ok(Opcode::SaveRegisters { x }),
                0x65 => Ok(Opcode::LoadRegisters { x }),
                _ => unknown,
            },
        }
    }
}

/// The digit for `d` below 16, upper case.
pub open spec fn hex_char(d: nat) -> char {
    if d == 0 { '0' } else if d == 1 { '1' } else if d == 2 { '2' } else if d == 3 { '3' }
    else if d == 4 { '4' } else if d == 5 { '5' } else if d == 6 { '6' } else if d == 7 { '7' }
    else if d == 8 { '8' } else if d == 9 { '9' } else if d == 10 { 'A' } else if d == 11 { 'B' }
    else if d == 12 { 'C' } else if d == 13 { 'D' } else if d == 14 { 'E' } else { 'F' }
}

/// The value of a hexadecimal digit.
pub open spec fn digit_value(c: char) -> nat {
    if c == '1' { 1 } else if c == '2' { 2 } else if c == '3' { 3 } else if c == '4' { 4 }
    else if c == '5' { 5 } else if c == '6' { 6 } else if c == '7' { 7 } else if c == '8' { 8 }
    else if c == '9' { 9 } else if c == 'A' { 10 } else if c == 'B' { 11 } else if c == 'C' { 12 }
    else if c == 'D' { 13 } else if c == 'E' { 14 } else if c == 'F' { 15 } else { 0 }
}

/// `v` in base `b` (16 or 10), most significant digit first, no leading zeros.
pub open spec fn digits(v: nat, b: nat) -> Seq<char>
    decreases v
    via digits_decreases
{
    if v < b || b < 2 {
        seq![hex_char(v)]
    } else {
        digits(v / b, b) + seq![hex_char(v % b)]
    }
}

#[via_fn]
proof fn digits_decreases(v: nat, b: nat) {
    if !(v < b || b < 2) {
        assert(v / b < v) by (nonlinear_arith)
            requires
                v >= b,
                b >= 2,
        ;
    }
}

/// The number that the digits `s` stand for in base `b`.
pub open spec fn digits_value(s: Seq<char>, b: nat) -> nat
    decreases s.len(),
{
    if s.len() == 0 {
        0
    } else {
        digits_value(s.drop_last(), b) * b + digit_value(s.last())
    }
}

/// A register operand: `V` and its index as one hexadecimal digit.
pub open spec fn reg_token(x: nat) -> Seq<char> {
    "V"@ + digits(x, 16)
}

/// A numeric operand in hexadecimal, as `0x1F`.
pub open spec fn hex_token(v: nat) -> Seq<char> {
    "0x"@ + digits(v, 16)
}

/// The assembler-style text of an instruction.
pub open spec fn mnemonic_of(op: Opcode) -> Seq<char> {
    match op {
        Opcode::ClearScreen => "CLR"@,
        Opcode::Return => "RET"@,
        Opcode::Jump { addr } => "JP "@ + hex_token(addr as nat),
        Opcode::Call { addr } => "CALL "@ + hex_token(addr as nat),
        Opcode::SkipEqualByte { x, kk } => "SE "@ + reg_token(x as nat) + ", "@ + hex_token(kk as nat),
        Opcode::SkipNotEqualByte { x, kk } => "SNE "@ + reg_token(x as nat) + ", "@ + hex_token(kk as nat),
        Opcode::SkipEqual { x, y } => "SE "@ + reg_token(x as nat) + ", "@ + reg_token(y as nat),
        Opcode::SkipNotEqual { x, y } => "SNE "@ + reg_token(x as nat) + ", "@ + reg_token(y as nat),
        Opcode::LoadByte { x, kk } => "LD "@ + reg_token(x as nat) + ", "@ + hex_token(kk as nat),
        Opcode::AddByte { x, kk } => "ADD "@ + reg_token(x as nat) + ", "@ + hex_token(kk as nat),
        Opcode::Load { x, y } => "LD "@ + reg_token(x as nat) + ", "@ + reg_token(y as nat),
        Opcode::Or { x, y } => "OR "@ + reg_token(x as nat) + ", "@ + reg_token(y as nat),
        Opcode::And { x, y } => "AND "@ + reg_token(x as nat) + ", "@ + reg_token(y as nat),
        Opcode::Xor { x, y } => "XOR "@ + reg_token(x as nat) + ", "@ + reg_token(y as nat),
        Opcode::Add { x, y } => "ADD "@ + reg_token(x as nat) + ", "@ + reg_token(y as nat),
        Opcode::Sub { x, y } => "SUB "@ + reg_token(x as nat) + ", "@ + reg_token(y as nat),
        Opcode::Shr { x, y } => "SHR "@ + reg_token(x as nat) + ", "@ + reg_token(y as nat),
        Opcode::Shl { x, y } => "SHL "@ + reg_token(x as nat) + ", "@ + reg_token(y as nat),
        Opcode::Subn { x, y } => "SUBN "@ + reg_token(x as nat) + ", "@ + reg_token(y as nat),
        Opcode::LoadI { addr } => "LD I, "@ + hex_token(addr as nat),
        Opcode::JumpV0 { addr } => "JP V0, "@ + hex_token(addr as nat),
        Opcode::Random { x, kk } => "RND "@ + reg_token(x as nat) + ", "@ + hex_token(kk as nat),
        Opcode::Draw { x, y, n } => "DRW "@ + reg_token(x as nat) + ", "@ + reg_token(y as nat) + ", "@
            + digits(n as nat, 10),
        Opcode::SkipKeyPressed { x } => "SKP "@ + reg_token(x as nat),
        Opcode::SkipKeyNotPressed { x } => "SKNP "@ + reg_token(x as nat),
        Opcode::LoadDelayTimer { x } => "LD "@ + reg_token(x as nat) + ", DT"@,
        Opcode::WaitKeyPressed { x } => "LD "@ + reg_token(x as nat) + ", K"@,
        Opcode::LoadToDelayTimer { x } => "LD DT, "@ + reg_token(x as nat),
        Opcode::LoadToSoundTimer { x } => "LD ST, "@ + reg_token(x as nat),
        Opcode::AddI { x } => "ADD I, "@ + reg_token(x as nat),
        Opcode::LoadSprite { x } => "LD F, "@ + reg_token(x as nat),
        Opcode::LoadBCD { x } => "LD B, "@ + reg_token(x as nat),
        Opcode::SaveRegisters { x } => "LD [I], "@ + reg_token(x as nat),
        Opcode::LoadRegisters { x } => "LD "@ + reg_token(x as nat) + ", [I]"@,
    }
}

/// The digits of a number read back give the number: every operand token of
/// a mnemonic is recoverable.
pub proof fn lemma_digits_round_trip(v: nat, b: nat)
    requires
        b == 10 || b == 16,
    ensures
        digits_value(digits(v, b), b) == v,
    decreases v,
{
    if v < b {
        let s = digits(v, b);
        assert(s.drop_last() =~= Seq::<char>::empty());
        assert(digit_value(hex_char(v)) == v);
        assert(digits_value(s.drop_last(), b) == 0);
        assert(digits_value(s, b) == digits_value(s.drop_last(), b) * b + digit_value(s.last()));
        assert(0 * b == 0);
    } else {
        assert(v / b < v) by (nonlinear_arith)
            requires
                v >= b,
                b >= 2,
        ;
        lemma_digits_round_trip(v / b, b);
        let s = digits(v, b);
        assert(s.drop_last() =~= digits(v / b, b));
        vstd::arithmetic::div_mod::lemma_fundamental_div_mod(v as int, b as int);
        vstd::arithmetic::div_mod::lemma_mod_bound(v as int, b as int);
        assert(digit_value(hex_char(v % b)) == v % b);
        assert(s.last() == hex_char(v % b));
        assert((v / b) * b + v % b == v) by (nonlinear_arith)
            requires
                v == b * (v / b) + v % b,
        ;
        assert(digits_value(s, b) == digits_value(s.drop_last(), b) * b + digit_value(s.last()));
        assert(digits_value(s.drop_last(), b) == v / b);
    }
}

/// Appends the digits of `v` in base `b`.
fn push_digits(s: &mut String, v: usize, b: usize)
    requires
        b == 10 || b == 16,
    ensures
        final(s)@ == old(s)@ + digits(v as nat, b as nat),
    decreases v,
{
    if v >= b {
        push_digits(s, v / b, b);
    }
    let table = "0123456789ABCDEF";
    proof {
        reveal_strlit("0123456789ABCDEF");
    }
    let d = v % b;
    proof {
        if v < b {
            vstd::arithmetic::div_mod::lemma_small_mod(v as nat, b as nat);
        }
    }
    s.append(table.substring_char(d, d + 1));
    assert(table@.subrange(d as int, d + 1) =~= seq![hex_char(d as nat)]);
    assert(final(s)@ =~= old(s)@ + digits(v as nat, b as nat));
}

fn push_reg(s: &mut String, x: usize)
    ensures
        final(s)@ == old(s)@ + reg_token(x as nat),
{
    s.append("V");
    push_digits(s, x, 16);
    assert(final(s)@ =~= old(s)@ + reg_token(x as nat));
}

fn push_hex(s: &mut String, v: usize)
    ensures
        final(s)@ == old(s)@ + hex_token(v as nat),
{
    s.append("0x");
    push_digits(s, v, 16);
    assert(final(s)@ =~= old(s)@ + hex_token(v as nat));
}

impl Opcode {
    /// Renders the instruction as assembler-style text: registers as `V`
    /// and a hexadecimal digit, addresses and bytes as `0x` and upper-case
    /// hexadecimal digits, the sprite height in decimal.
    pub fn mnemonic(&self) -> (r: String)
        ensures
            r@ == mnemonic_of(*self),
    {
        let mut s = String::new();
        match *self {
            Opcode::ClearScreen => {
                s.append("CLR");
            },
            Opcode::Return => {
                s.append("RET");
            },
            Opcode::Jump { addr } => {
                s.append("JP ");
                push_hex(&mut s, addr as usize);
            },
            Opcode::Call { addr } => {
                s.append("CALL ");
                push_hex(&mut s, addr as usize);
            },
            Opcode::SkipEqualByte { x, kk } => {
                s.append("SE ");
                push_reg(&mut s, x);
                s.append(", ");
                push_hex(&mut s, kk as usize);
            },
            Opcode::SkipNotEqualByte { x, kk } => {
                s.append("SNE ");
                push_reg(&mut s, x);
                s.append(", ");
                push_hex(&mut s, kk as usize);
            },
            Opcode::SkipEqual { x, y } => {
                s.append("SE ");
                push_reg(&mut s, x);
                s.append(", ");
                push_reg(&mut s, y);
            },
            Opcode::SkipNotEqual { x, y } => {
                s.append("SNE ");
                push_reg(&mut s, x);
                s.append(", ");
                push_reg(&mut s, y);
            },
            Opcode::LoadByte { x, kk } => {
                s.append("LD ");
                push_reg(&mut s, x);
                s.append(", ");
                push_hex(&mut s, kk as usize);
            },
            Opcode::AddByte { x, kk } => {
                s.append("ADD ");
                push_reg(&mut s, x);
                s.append(", ");
                push_hex(&mut s, kk as usize);
            },
            Opcode::Load { x, y } => {
                s.append("LD ");
                push_reg(&mut s, x);
                s.append(", ");
                push_reg(&mut s, y);
            },
            Opcode::Or { x, y } => {
                s.append("OR ");
                push_reg(&mut s, x);
                s.append(", ");
                push_reg(&mut s, y);
            },
            Opcode::And { x, y } => {
                s.append("AND ");
                push_reg(&mut s, x);
                s.append(", ");
                push_reg(&mut s, y);
            },
            Opcode::Xor { x, y } => {
                s.append("XOR ");
                push_reg(&mut s, x);
                s.append(", ");
                push_reg(&mut s, y);
            },
            Opcode::Add { x, y } => {
                s.append("ADD ");
                push_reg(&mut s, x);
                s.append(", ");
                push_reg(&mut s, y);
            },
            Opcode::Sub { x, y } => {
                s.append("SUB ");
                push_reg(&mut s, x);
                s.append(", ");
                push_reg(&mut s, y);
            },
            Opcode::Shr { x, y } => {
                s.append("SHR ");
                push_reg(&mut s, x);
                s.append(", ");
                push_reg(&mut s, y);
            },
            Opcode::Shl { x, y } => {
                s.append("SHL ");
                push_reg(&mut s, x);
                s.append(", ");
                push_reg(&mut s, y);
            },
            Opcode::Subn { x, y } => {
                s.append("SUBN ");
                push_reg(&mut s, x);
                s.append(", ");
                push_reg(&mut s, y);
            },
            Opcode::LoadI { addr } => {
                s.append("LD I, ");
                push_hex(&mut s, addr as usize);
            },
            Opcode::JumpV0 { addr } => {
                s.append("JP V0, ");
                push_hex(&mut s, addr as usize);
            },
            Opcode::Random { x, kk } => {
                s.append("RND ");
                push_reg(&mut s, x);
                s.append(", ");
                push_hex(&mut s, kk as usize);
            },
            Opcode::Draw { x, y, n } => {
                s.append("DRW ");
                push_reg(&mut s, x);
                s.append(", ");
                push_reg(&mut s, y);
                s.append(", ");
                push_digits(&mut s, n, 10);
            },
            Opcode::SkipKeyPressed { x } => {
                s.append("SKP ");
                push_reg(&mut s, x);
            },
            Opcode::SkipKeyNotPressed { x } => {
                s.append("SKNP ");
                push_reg(&mut s, x);
            },
            Opcode::LoadDelayTimer { x } => {
                s.append("LD ");
                push_reg(&mut s, x);
                s.append(", DT");
            },
            Opcode::WaitKeyPressed { x } => {
                s.append("LD ");
                push_reg(&mut s, x);
                s.append(", K");
            },
            Opcode::LoadToDelayTimer { x } => {
                s.append("LD DT, ");
                push_reg(&mut s, x);
            },
            Opcode::LoadToSoundTimer { x } => {
                s.append("LD ST, ");
                push_reg(&mut s, x);
            },
            Opcode::AddI { x } => {
                s.append("ADD I, ");
                push_reg(&mut s, x);
            },
            Opcode::LoadSprite { x } => {
                s.append("LD F, ");
                push_reg(&mut s, x);
            },
            Opcode::LoadBCD { x } => {
                s.append("LD B, ");
                push_reg(&mut s, x);
            },
            Opcode::SaveRegisters { x } => {
                s.append("LD [I], ");
                push_reg(&mut s, x);
            },
            Opcode::LoadRegisters { x } => {
                s.append("LD ");
                push_reg(&mut s, x);
                s.append(", [I]");
            },
        }
        assert(s@ =~= mnemonic_of(*self));
        s
    }
}

/// Decoding is total: every word gives an instruction with operands in
/// range, or the unknown-opcode error that carries the word itself.
pub proof fn lemma_decode_total(w: u16)
    ensures
        match decode_spec(w) {
            Ok(op) => op.wf(),
            Err(e) => e == ParseOpcodeError::UnknownOpcode(w),
        },
{
}

/// Whether two instructions are of the same form, whatever their operands.
pub open spec fn same_form(a: Opcode, b: Opcode) -> bool {
    match (a, b) {
        (Opcode::ClearScreen, Opcode::ClearScreen) => true,
        (Opcode::Return, Opcode::Return) => true,
        (Opcode::Jump { .. }, Opcode::Jump { .. }) => true,
        (Opcode::Call { .. }, Opcode::Call { .. }) => true,
        (Opcode::SkipEqualByte { .. }, Opcode::SkipEqualByte { .. }) => true,
        (Opcode::SkipNotEqualByte { .. }, Opcode::SkipNotEqualByte { .. }) => true,
        (Opcode::SkipEqual { .. }, Opcode::SkipEqual { .. }) => true,
        (Opcode::SkipNotEqual { .. }, Opcode::SkipNotEqual { .. }) => true,
        (Opcode::LoadByte { .. }, Opcode::LoadByte { .. }) => true,
        (Opcode::AddByte { .. }, Opcode::AddByte { .. }) => true,
        (Opcode::Load { .. }, Opcode::Load { .. }) => true,
        (Opcode::Or { .. }, Opcode::Or { .. }) => true,
        (Opcode::And { .. }, Opcode::And { .. }) => true,
        (Opcode::Xor { .. }, Opcode::Xor { .. }) => true,
        (Opcode::Add { .. }, Opcode::Add { .. }) => true,
        (Opcode::Sub { .. }, Opcode::Sub { .. }) => true,
        (Opcode::Shr { .. }, Opcode::Shr { .. }) => true,
        (Opcode::Shl { .. }, Opcode::Shl { .. }) => true,
        (Opcode::Subn { .. }, Opcode::Subn { .. }) => true,
        (Opcode::LoadI { .. }, Opcode::LoadI { .. }) => true,
        (Opcode::JumpV0 { .. }, Opcode::JumpV0 { .. }) => true,
        (Opcode::Random { .. }, Opcode::Random { .. }) => true,
        (Opcode::Draw { .. }, Opcode::Draw { .. }) => true,
        (Opcode::SkipKeyPressed { .. }, Opcode::SkipKeyPressed { .. }) => true,
        (Opcode::SkipKeyNotPressed { .. }, Opcode::SkipKeyNotPressed { .. }) => true,
        (Opcode::LoadDelayTimer { .. }, Opcode::LoadDelayTimer { .. }) => true,
        (Opcode::WaitKeyPressed { .. }, Opcode::WaitKeyPressed { .. }) => true,
        (Opcode::LoadToDelayTimer { .. }, Opcode::LoadToDelayTimer { .. }) => true,
        (Opcode::LoadToSoundTimer { .. }, Opcode::LoadToSoundTimer { .. }) => true,
        (Opcode::AddI { .. }, Opcode::AddI { .. }) => true,
        (Opcode::LoadSprite { .. }, Opcode::LoadSprite { .. }) => true,
        (Opcode::LoadBCD { .. }, Opcode::LoadBCD { .. }) => true,
        (Opcode::SaveRegisters { .. }, Opcode::SaveRegisters { .. }) => true,
        (Opcode::LoadRegisters { .. }, Opcode::LoadRegisters { .. }) => true,
        _ => false,
    }
}

proof fn lemma_cancel(p: Seq<char>, r1: Seq<char>, r2: Seq<char>)
    requires
        p + r1 == p + r2,
    ensures
        r1 == r2,
{
    assert(r1 =~= (p + r1).subrange(p.len() as int, (p + r1).len() as int));
    assert(r2 =~= (p + r2).subrange(p.len() as int, (p + r2).len() as int));
}

proof fn lemma_reg_peel(x1: nat, x2: nat, r1: Seq<char>, r2: Seq<char>)
    requires
        x1 < 16,
        x2 < 16,
        reg_token(x1) + r1 == reg_token(x2) + r2,
    ensures
        x1 == x2,
        r1 == r2,
{
    reveal_strlit("V");
    assert(digits(x1, 16) =~= seq![hex_char(x1)]);
    assert(digits(x2, 16) =~= seq![hex_char(x2)]);
    assert((reg_token(x1) + r1)[1] == hex_char(x1));
    assert((reg_token(x2) + r2)[1] == hex_char(x2));
    assert(digit_value(hex_char(x1)) == x1);
    assert(digit_value(hex_char(x2)) == x2);
    lemma_cancel(reg_token(x1), r1, r2);
}

proof fn lemma_hex_eq(v1: nat, v2: nat)
    requires
        hex_token(v1) == hex_token(v2),
    ensures
        v1 == v2,
{
    lemma_cancel("0x"@, digits(v1, 16), digits(v2, 16));
    lemma_digits_round_trip(v1, 16);
    lemma_digits_round_trip(v2, 16);
}

proof fn lemma_dec_eq(v1: nat, v2: nat)
    requires
        digits(v1, 10) == digits(v2, 10),
    ensures
        v1 == v2,
{
    lemma_digits_round_trip(v1, 10);
    lemma_digits_round_trip(v2, 10);
}

/// The text of an instruction gives its operands back: two instructions of
/// the same form with the same mnemonic have the same registers, addresses,
/// bytes and heights.
#[verifier::rlimit(100)]
pub proof fn lemma_mnemonic_keeps_operands(a: Opcode, b: Opcode)
    requires
        a.wf(),
        b.wf(),
        same_form(a, b),
        mnemonic_of(a) == mnemonic_of(b),
    ensures
        a == b,
{
    match (a, b) {
        (Opcode::ClearScreen, Opcode::ClearScreen) => {},
        (Opcode::Return, Opcode::Return) => {},
        (Opcode::Jump { addr: addr1 }, Opcode::Jump { addr: addr2 }) => {
            assert(mnemonic_of(a) =~= "JP "@ + hex_token(addr1 as nat));
            assert(mnemonic_of(b) =~= "JP "@ + hex_token(addr2 as nat));
            lemma_cancel("JP "@, hex_token(addr1 as nat), hex_token(addr2 as nat));
            lemma_hex_eq(addr1 as nat, addr2 as nat);
        },
        (Opcode::Call { addr: addr1 }, Opcode::Call { addr: addr2 }) => {
            assert(mnemonic_of(a) =~= "CALL "@ + hex_token(addr1 as nat));
            assert(mnemonic_of(b) =~= "CALL "@ + hex_token(addr2 as nat));
            lemma_cancel("CALL "@, hex_token(addr1 as nat), hex_token(addr2 as nat));
            lemma_hex_eq(addr1 as nat, addr2 as nat);
        },
        (Opcode::SkipEqualByte { x: x1, kk: kk1 }, Opcode::SkipEqualByte { x: x2, kk: kk2 }) => {
            assert(mnemonic_of(a) =~= "SE "@ + (reg_token(x1 as nat) + (", "@ + hex_token(kk1 as nat))));
            assert(mnemonic_of(b) =~= "SE "@ + (reg_token(x2 as nat) + (", "@ + hex_token(kk2 as nat))));
            lemma_cancel("SE "@, reg_token(x1 as nat) + (", "@ + hex_token(kk1 as nat)), reg_token(x2 as nat) + (", "@ + hex_token(kk2 as nat)));
            lemma_reg_peel(x1 as nat, x2 as nat, ", "@ + hex_token(kk1 as nat), ", "@ + hex_token(kk2 as nat));
            lemma_cancel(", "@, hex_token(kk1 as nat), hex_token(kk2 as nat));
            lemma_hex_eq(kk1 as nat, kk2 as nat);
        },
        (Opcode::SkipNotEqualByte { x: x1, kk: kk1 }, Opcode::SkipNotEqualByte { x: x2, kk: kk2 }) => {
            assert(mnemonic_of(a) =~= "SNE "@ + (reg_token(x1 as nat) + (", "@ + hex_token(kk1 as nat))));
            assert(mnemonic_of(b) =~= "SNE "@ + (reg_token(x2 as nat) + (", "@ + hex_token(kk2 as nat))));
            lemma_cancel("SNE "@, reg_token(x1 as nat) + (", "@ + hex_token(kk1 as nat)), reg_token(x2 as nat) + (", "@ + hex_token(kk2 as nat)));
            lemma_reg_peel(x1 as nat, x2 as nat, ", "@ + hex_token(kk1 as nat), ", "@ + hex_token(kk2 as nat));
            lemma_cancel(", "@, hex_token(kk1 as nat), hex_token(kk2 as nat));
            lemma_hex_eq(kk1 as nat, kk2 as nat);
        },
        (Opcode::SkipEqual { x: x1, y: y1 }, Opcode::SkipEqual { x: x2, y: y2 }) => {
            assert(mnemonic_of(a) =~= "SE "@ + (reg_token(x1 as nat) + (", "@ + reg_token(y1 as nat))));
            assert(mnemonic_of(b) =~= "SE "@ + (reg_token(x2 as nat) + (", "@ + reg_token(y2 as nat))));
            lemma_cancel("SE "@, reg_token(x1 as nat) + (", "@ + reg_token(y1 as nat)), reg_token(x2 as nat) + (", "@ + reg_token(y2 as nat)));
            lemma_reg_peel(x1 as nat, x2 as nat, ", "@ + reg_token(y1 as nat), ", "@ + reg_token(y2 as nat));
            lemma_cancel(", "@, reg_token(y1 as nat), reg_token(y2 as nat));
            assert(reg_token(y1 as nat) + Seq::<char>::empty() =~= reg_token(y1 as nat));
            assert(reg_token(y2 as nat) + Seq::<char>::empty() =~= reg_token(y2 as nat));
            lemma_reg_peel(y1 as nat, y2 as nat, Seq::empty(), Seq::empty());
        },
        (Opcode::SkipNotEqual { x: x1, y: y1 }, Opcode::SkipNotEqual { x: x2, y: y2 }) => {
            assert(mnemonic_of(a) =~= "SNE "@ + (reg_token(x1 as nat) + (", "@ + reg_token(y1 as nat))));
            assert(mnemonic_of(b) =~= "SNE "@ + (reg_token(x2 as nat) + (", "@ + reg_token(y2 as nat))));
            lemma_cancel("SNE "@, reg_token(x1 as nat) + (", "@ + reg_token(y1 as nat)), reg_token(x2 as nat) + (", "@ + reg_token(y2 as nat)));
            lemma_reg_peel(x1 as nat, x2 as nat, ", "@ + reg_token(y1 as nat), ", "@ + reg_token(y2 as nat));
            lemma_cancel(", "@, reg_token(y1 as nat), reg_token(y2 as nat));
            assert(reg_token(y1 as nat) + Seq::<char>::empty() =~= reg_token(y1 as nat));
            assert(reg_token(y2 as nat) + Seq::<char>::empty() =~= reg_token(y2 as nat));
            lemma_reg_peel(y1 as nat, y2 as nat, Seq::empty(), Seq::empty());
        },
        (Opcode::LoadByte { x: x1, kk: kk1 }, Opcode::LoadByte { x: x2, kk: kk2 }) => {
            assert(mnemonic_of(a) =~= "LD "@ + (reg_token(x1 as nat) + (", "@ + hex_token(kk1 as nat))));
            assert(mnemonic_of(b) =~= "LD "@ + (reg_token(x2 as nat) + (", "@ + hex_token(kk2 as nat))));
            lemma_cancel("LD "@, reg_token(x1 as nat) + (", "@ + hex_token(kk1 as nat)), reg_token(x2 as nat) + (", "@ + hex_token(kk2 as nat)));
            lemma_reg_peel(x1 as nat, x2 as nat, ", "@ + hex_token(kk1 as nat), ", "@ + hex_token(kk2 as nat));
            lemma_cancel(", "@, hex_token(kk1 as nat), hex_token(kk2 as nat));
            lemma_hex_eq(kk1 as nat, kk2 as nat);
        },
        (Opcode::AddByte { x: x1, kk: kk1 }, Opcode::AddByte { x: x2, kk: kk2 }) => {
            assert(mnemonic_of(a) =~= "ADD "@ + (reg_token(x1 as nat) + (", "@ + hex_token(kk1 as nat))));
            assert(mnemonic_of(b) =~= "ADD "@ + (reg_token(x2 as nat) + (", "@ + hex_token(kk2 as nat))));
            lemma_cancel("ADD "@, reg_token(x1 as nat) + (", "@ + hex_token(kk1 as nat)), reg_token(x2 as nat) + (", "@ + hex_token(kk2 as nat)));
            lemma_reg_peel(x1 as nat, x2 as nat, ", "@ + hex_token(kk1 as nat), ", "@ + hex_token(kk2 as nat));
            lemma_cancel(", "@, hex_token(kk1 as nat), hex_token(kk2 as nat));
            lemma_hex_eq(kk1 as nat, kk2 as nat);
        },
        (Opcode::Load { x: x1, y: y1 }, Opcode::Load { x: x2, y: y2 }) => {
            assert(mnemonic_of(a) =~= "LD "@ + (reg_token(x1 as nat) + (", "@ + reg_token(y1 as nat))));
            assert(mnemonic_of(b) =~= "LD "@ + (reg_token(x2 as nat) + (", "@ + reg_token(y2 as nat))));
            lemma_cancel("LD "@, reg_token(x1 as nat) + (", "@ + reg_token(y1 as nat)), reg_token(x2 as nat) + (", "@ + reg_token(y2 as nat)));
            lemma_reg_peel(x1 as nat, x2 as nat, ", "@ + reg_token(y1 as nat), ", "@ + reg_token(y2 as nat));
            lemma_cancel(", "@, reg_token(y1 as nat), reg_token(y2 as nat));
            assert(reg_token(y1 as nat) + Seq::<char>::empty() =~= reg_token(y1 as nat));
            assert(reg_token(y2 as nat) + Seq::<char>::empty() =~= reg_token(y2 as nat));
            lemma_reg_peel(y1 as nat, y2 as nat, Seq::empty(), Seq::empty());
        },
        (Opcode::Or { x: x1, y: y1 }, Opcode::Or { x: x2, y: y2 }) => {
            assert(mnemonic_of(a) =~= "OR "@ + (reg_token(x1 as nat) + (", "@ + reg_token(y1 as nat))));
            assert(mnemonic_of(b) =~= "OR "@ + (reg_token(x2 as nat) + (", "@ + reg_token(y2 as nat))));
            lemma_cancel("OR "@, reg_token(x1 as nat) + (", "@ + reg_token(y1 as nat)), reg_token(x2 as nat) + (", "@ + reg_token(y2 as nat)));
            lemma_reg_peel(x1 as nat, x2 as nat, ", "@ + reg_token(y1 as nat), ", "@ + reg_token(y2 as nat));
            lemma_cancel(", "@, reg_token(y1 as nat), reg_token(y2 as nat));
            assert(reg_token(y1 as nat) + Seq::<char>::empty() =~= reg_token(y1 as nat));
            assert(reg_token(y2 as nat) + Seq::<char>::empty() =~= reg_token(y2 as nat));
            lemma_reg_peel(y1 as nat, y2 as nat, Seq::empty(), Seq::empty());
        },
        (Opcode::And { x: x1, y: y1 }, Opcode::And { x: x2, y: y2 }) => {
            assert(mnemonic_of(a) =~= "AND "@ + (reg_token(x1 as nat) + (", "@ + reg_token(y1 as nat))));
            assert(mnemonic_of(b) =~= "AND "@ + (reg_token(x2 as nat) + (", "@ + reg_token(y2 as nat))));
            lemma_cancel("AND "@, reg_token(x1 as nat) + (", "@ + reg_token(y1 as nat)), reg_token(x2 as nat) + (", "@ + reg_token(y2 as nat)));
            lemma_reg_peel(x1 as nat, x2 as nat, ", "@ + reg_token(y1 as nat), ", "@ + reg_token(y2 as nat));
            lemma_cancel(", "@, reg_token(y1 as nat), reg_token(y2 as nat));
            assert(reg_token(y1 as nat) + Seq::<char>::empty() =~= reg_token(y1 as nat));
            assert(reg_token(y2 as nat) + Seq::<char>::empty() =~= reg_token(y2 as nat));
            lemma_reg_peel(y1 as nat, y2 as nat, Seq::empty(), Seq::empty());
        },
        (Opcode::Xor { x: x1, y: y1 }, Opcode::Xor { x: x2, y: y2 }) => {
            assert(mnemonic_of(a) =~= "XOR "@ + (reg_token(x1 as nat) + (", "@ + reg_token(y1 as nat))));
            assert(mnemonic_of(b) =~= "XOR "@ + (reg_token(x2 as nat) + (", "@ + reg_token(y2 as nat))));
            lemma_cancel("XOR "@, reg_token(x1 as nat) + (", "@ + reg_token(y1 as nat)), reg_token(x2 as nat) + (", "@ + reg_token(y2 as nat)));
            lemma_reg_peel(x1 as nat, x2 as nat, ", "@ + reg_token(y1 as nat), ", "@ + reg_token(y2 as nat));
            lemma_cancel(", "@, reg_token(y1 as nat), reg_token(y2 as nat));
            assert(reg_token(y1 as nat) + Seq::<char>::empty() =~= reg_token(y1 as nat));
            assert(reg_token(y2 as nat) + Seq::<char>::empty() =~= reg_token(y2 as nat));
            lemma_reg_peel(y1 as nat, y2 as nat, Seq::empty(), Seq::empty());
        },
        (Opcode::Add { x: x1, y: y1 }, Opcode::Add { x: x2, y: y2 }) => {
            assert(mnemonic_of(a) =~= "ADD "@ + (reg_token(x1 as nat) + (", "@ + reg_token(y1 as nat))));
            assert(mnemonic_of(b) =~= "ADD "@ + (reg_token(x2 as nat) + (", "@ + reg_token(y2 as nat))));
            lemma_cancel("ADD "@, reg_token(x1 as nat) + (", "@ + reg_token(y1 as nat)), reg_token(x2 as nat) + (", "@ + reg_token(y2 as nat)));
            lemma_reg_peel(x1 as nat, x2 as nat, ", "@ + reg_token(y1 as nat), ", "@ + reg_token(y2 as nat));
            lemma_cancel(", "@, reg_token(y1 as nat), reg_token(y2 as nat));
            assert(reg_token(y1 as nat) + Seq::<char>::empty() =~= reg_token(y1 as nat));
            assert(reg_token(y2 as nat) + Seq::<char>::empty() =~= reg_token(y2 as nat));
            lemma_reg_peel(y1 as nat, y2 as nat, Seq::empty(), Seq::empty());
        },
        (Opcode::Sub { x: x1, y: y1 }, Opcode::Sub { x: x2, y: y2 }) => {
            assert(mnemonic_of(a) =~= "SUB "@ + (reg_token(x1 as nat) + (", "@ + reg_token(y1 as nat))));
            assert(mnemonic_of(b) =~= "SUB "@ + (reg_token(x2 as nat) + (", "@ + reg_token(y2 as nat))));
            lemma_cancel("SUB "@, reg_token(x1 as nat) + (", "@ + reg_token(y1 as nat)), reg_token(x2 as nat) + (", "@ + reg_token(y2 as nat)));
            lemma_reg_peel(x1 as nat, x2 as nat, ", "@ + reg_token(y1 as nat), ", "@ + reg_token(y2 as nat));
            lemma_cancel(", "@, reg_token(y1 as nat), reg_token(y2 as nat));
            assert(reg_token(y1 as nat) + Seq::<char>::empty() =~= reg_token(y1 as nat));
            assert(reg_token(y2 as nat) + Seq::<char>::empty() =~= reg_token(y2 as nat));
            lemma_reg_peel(y1 as nat, y2 as nat, Seq::empty(), Seq::empty());
        },
        (Opcode::Shr { x: x1, y: y1 }, Opcode::Shr { x: x2, y: y2 }) => {
            assert(mnemonic_of(a) =~= "SHR "@ + (reg_token(x1 as nat) + (", "@ + reg_token(y1 as nat))));
            assert(mnemonic_of(b) =~= "SHR "@ + (reg_token(x2 as nat) + (", "@ + reg_token(y2 as nat))));
            lemma_cancel("SHR "@, reg_token(x1 as nat) + (", "@ + reg_token(y1 as nat)), reg_token(x2 as nat) + (", "@ + reg_token(y2 as nat)));
            lemma_reg_peel(x1 as nat, x2 as nat, ", "@ + reg_token(y1 as nat), ", "@ + reg_token(y2 as nat));
            lemma_cancel(", "@, reg_token(y1 as nat), reg_token(y2 as nat));
            assert(reg_token(y1 as nat) + Seq::<char>::empty() =~= reg_token(y1 as nat));
            assert(reg_token(y2 as nat) + Seq::<char>::empty() =~= reg_token(y2 as nat));
            lemma_reg_peel(y1 as nat, y2 as nat, Seq::empty(), Seq::empty());
        },
        (Opcode::Shl { x: x1, y: y1 }, Opcode::Shl { x: x2, y: y2 }) => {
            assert(mnemonic_of(a) =~= "SHL "@ + (reg_token(x1 as nat) + (", "@ + reg_token(y1 as nat))));
            assert(mnemonic_of(b) =~= "SHL "@ + (reg_token(x2 as nat) + (", "@ + reg_token(y2 as nat))));
            lemma_cancel("SHL "@, reg_token(x1 as nat) + (", "@ + reg_token(y1 as nat)), reg_token(x2 as nat) + (", "@ + reg_token(y2 as nat)));
            lemma_reg_peel(x1 as nat, x2 as nat, ", "@ + reg_token(y1 as nat), ", "@ + reg_token(y2 as nat));
            lemma_cancel(", "@, reg_token(y1 as nat), reg_token(y2 as nat));
            assert(reg_token(y1 as nat) + Seq::<char>::empty() =~= reg_token(y1 as nat));
            assert(reg_token(y2 as nat) + Seq::<char>::empty() =~= reg_token(y2 as nat));
            lemma_reg_peel(y1 as nat, y2 as nat, Seq::empty(), Seq::empty());
        },
        (Opcode::Subn { x: x1, y: y1 }, Opcode::Subn { x: x2, y: y2 }) => {
            assert(mnemonic_of(a) =~= "SUBN "@ + (reg_token(x1 as nat) + (", "@ + reg_token(y1 as nat))));
            assert(mnemonic_of(b) =~= "SUBN "@ + (reg_token(x2 as nat) + (", "@ + reg_token(y2 as nat))));
            lemma_cancel("SUBN "@, reg_token(x1 as nat) + (", "@ + reg_token(y1 as nat)), reg_token(x2 as nat) + (", "@ + reg_token(y2 as nat)));
            lemma_reg_peel(x1 as nat, x2 as nat, ", "@ + reg_token(y1 as nat), ", "@ + reg_token(y2 as nat));
            lemma_cancel(", "@, reg_token(y1 as nat), reg_token(y2 as nat));
            assert(reg_token(y1 as nat) + Seq::<char>::empty() =~= reg_token(y1 as nat));
            assert(reg_token(y2 as nat) + Seq::<char>::empty() =~= reg_token(y2 as nat));
            lemma_reg_peel(y1 as nat, y2 as nat, Seq::empty(), Seq::empty());
        },
        (Opcode::LoadI { addr: addr1 }, Opcode::LoadI { addr: addr2 }) => {
            assert(mnemonic_of(a) =~= "LD I, "@ + hex_token(addr1 as nat));
            assert(mnemonic_of(b) =~= "LD I, "@ + hex_token(addr2 as nat));
            lemma_cancel("LD I, "@, hex_token(addr1 as nat), hex_token(addr2 as nat));
            lemma_hex_eq(addr1 as nat, addr2 as nat);
        },
        (Opcode::JumpV0 { addr: addr1 }, Opcode::JumpV0 { addr: addr2 }) => {
            assert(mnemonic_of(a) =~= "JP V0, "@ + hex_token(addr1 as nat));
            assert(mnemonic_of(b) =~= "JP V0, "@ + hex_token(addr2 as nat));
            lemma_cancel("JP V0, "@, hex_token(addr1 as nat), hex_token(addr2 as nat));
            lemma_hex_eq(addr1 as nat, addr2 as nat);
        },
        (Opcode::Random { x: x1, kk: kk1 }, Opcode::Random { x: x2, kk: kk2 }) => {
            assert(mnemonic_of(a) =~= "RND "@ + (reg_token(x1 as nat) + (", "@ + hex_token(kk1 as nat))));
            assert(mnemonic_of(b) =~= "RND "@ + (reg_token(x2 as nat) + (", "@ + hex_token(kk2 as nat))));
            lemma_cancel("RND "@, reg_token(x1 as nat) + (", "@ + hex_token(kk1 as nat)), reg_token(x2 as nat) + (", "@ + hex_token(kk2 as nat)));
            lemma_reg_peel(x1 as nat, x2 as nat, ", "@ + hex_token(kk1 as nat), ", "@ + hex_token(kk2 as nat));
            lemma_cancel(", "@, hex_token(kk1 as nat), hex_token(kk2 as nat));
            lemma_hex_eq(kk1 as nat, kk2 as nat);
        },
        (Opcode::Draw { x: x1, y: y1, n: n1 }, Opcode::Draw { x: x2, y: y2, n: n2 }) => {
            assert(mnemonic_of(a) =~= "DRW "@ + (reg_token(x1 as nat) + (", "@ + (reg_token(y1 as nat) + (", "@ + digits(n1 as nat, 10))))));
            assert(mnemonic_of(b) =~= "DRW "@ + (reg_token(x2 as nat) + (", "@ + (reg_token(y2 as nat) + (", "@ + digits(n2 as nat, 10))))));
            lemma_cancel("DRW "@, reg_token(x1 as nat) + (", "@ + (reg_token(y1 as nat) + (", "@ + digits(n1 as nat, 10)))), reg_token(x2 as nat) + (", "@ + (reg_token(y2 as nat) + (", "@ + digits(n2 as nat, 10)))));
            lemma_reg_peel(x1 as nat, x2 as nat, ", "@ + (reg_token(y1 as nat) + (", "@ + digits(n1 as nat, 10))), ", "@ + (reg_token(y2 as nat) + (", "@ + digits(n2 as nat, 10))));
            lemma_cancel(", "@, reg_token(y1 as nat) + (", "@ + digits(n1 as nat, 10)), reg_token(y2 as nat) + (", "@ + digits(n2 as nat, 10)));
            lemma_reg_peel(y1 as nat, y2 as nat, ", "@ + digits(n1 as nat, 10), ", "@ + digits(n2 as nat, 10));
            lemma_cancel(", "@, digits(n1 as nat, 10), digits(n2 as nat, 10));
            lemma_dec_eq(n1 as nat, n2 as nat);
        },
        (Opcode::SkipKeyPressed { x: x1 }, Opcode::SkipKeyPressed { x: x2 }) => {
            assert(mnemonic_of(a) =~= "SKP "@ + reg_token(x1 as nat));
            assert(mnemonic_of(b) =~= "SKP "@ + reg_token(x2 as nat));
            lemma_cancel("SKP "@, reg_token(x1 as nat), reg_token(x2 as nat));
            assert(reg_token(x1 as nat) + Seq::<char>::empty() =~= reg_token(x1 as nat));
            assert(reg_token(x2 as nat) + Seq::<char>::empty() =~= reg_token(x2 as nat));
            lemma_reg_peel(x1 as nat, x2 as nat, Seq::empty(), Seq::empty());
        },
        (Opcode::SkipKeyNotPressed { x: x1 }, Opcode::SkipKeyNotPressed { x: x2 }) => {
            assert(mnemonic_of(a) =~= "SKNP "@ + reg_token(x1 as nat));
            assert(mnemonic_of(b) =~= "SKNP "@ + reg_token(x2 as nat));
            lemma_cancel("SKNP "@, reg_token(x1 as nat), reg_token(x2 as nat));
            assert(reg_token(x1 as nat) + Seq::<char>::empty() =~= reg_token(x1 as nat));
            assert(reg_token(x2 as nat) + Seq::<char>::empty() =~= reg_token(x2 as nat));
            lemma_reg_peel(x1 as nat, x2 as nat, Seq::empty(), Seq::empty());
        },
        (Opcode::LoadDelayTimer { x: x1 }, Opcode::LoadDelayTimer { x: x2 }) => {
            assert(mnemonic_of(a) =~= "LD "@ + (reg_token(x1 as nat) + ", DT"@));
            assert(mnemonic_of(b) =~= "LD "@ + (reg_token(x2 as nat) + ", DT"@));
            lemma_cancel("LD "@, reg_token(x1 as nat) + ", DT"@, reg_token(x2 as nat) + ", DT"@);
            lemma_reg_peel(x1 as nat, x2 as nat, ", DT"@, ", DT"@);
        },
        (Opcode::WaitKeyPressed { x: x1 }, Opcode::WaitKeyPressed { x: x2 }) => {
            assert(mnemonic_of(a) =~= "LD "@ + (reg_token(x1 as nat) + ", K"@));
            assert(mnemonic_of(b) =~= "LD "@ + (reg_token(x2 as nat) + ", K"@));
            lemma_cancel("LD "@, reg_token(x1 as nat) + ", K"@, reg_token(x2 as nat) + ", K"@);
            lemma_reg_peel(x1 as nat, x2 as nat, ", K"@, ", K"@);
        },
        (Opcode::LoadToDelayTimer { x: x1 }, Opcode::LoadToDelayTimer { x: x2 }) => {
            assert(mnemonic_of(a) =~= "LD DT, "@ + reg_token(x1 as nat));
            assert(mnemonic_of(b) =~= "LD DT, "@ + reg_token(x2 as nat));
            lemma_cancel("LD DT, "@, reg_token(x1 as nat), reg_token(x2 as nat));
            assert(reg_token(x1 as nat) + Seq::<char>::empty() =~= reg_token(x1 as nat));
            assert(reg_token(x2 as nat) + Seq::<char>::empty() =~= reg_token(x2 as nat));
            lemma_reg_peel(x1 as nat, x2 as nat, Seq::empty(), Seq::empty());
        },
        (Opcode::LoadToSoundTimer { x: x1 }, Opcode::LoadToSoundTimer { x: x2 }) => {
            assert(mnemonic_of(a) =~= "LD ST, "@ + reg_token(x1 as nat));
            assert(mnemonic_of(b) =~= "LD ST, "@ + reg_token(x2 as nat));
            lemma_cancel("LD ST, "@, reg_token(x1 as nat), reg_token(x2 as nat));
            assert(reg_token(x1 as nat) + Seq::<char>::empty() =~= reg_token(x1 as nat));
            assert(reg_token(x2 as nat) + Seq::<char>::empty() =~= reg_token(x2 as nat));
            lemma_reg_peel(x1 as nat, x2 as nat, Seq::empty(), Seq::empty());
        },
        (Opcode::AddI { x: x1 }, Opcode::AddI { x: x2 }) => {
            assert(mnemonic_of(a) =~= "ADD I, "@ + reg_token(x1 as nat));
            assert(mnemonic_of(b) =~= "ADD I, "@ + reg_token(x2 as nat));
            lemma_cancel("ADD I, "@, reg_token(x1 as nat), reg_token(x2 as nat));
            assert(reg_token(x1 as nat) + Seq::<char>::empty() =~= reg_token(x1 as nat));
            assert(reg_token(x2 as nat) + Seq::<char>::empty() =~= reg_token(x2 as nat));
            lemma_reg_peel(x1 as nat, x2 as nat, Seq::empty(), Seq::empty());
        },
        (Opcode::LoadSprite { x: x1 }, Opcode::LoadSprite { x: x2 }) => {
            assert(mnemonic_of(a) =~= "LD F, "@ + reg_token(x1 as nat));
            assert(mnemonic_of(b) =~= "LD F, "@ + reg_token(x2 as nat));
            lemma_cancel("LD F, "@, reg_token(x1 as nat), reg_token(x2 as nat));
            assert(reg_token(x1 as nat) + Seq::<char>::empty() =~= reg_token(x1 as nat));
            assert(reg_token(x2 as nat) + Seq::<char>::empty() =~= reg_token(x2 as nat));
            lemma_reg_peel(x1 as nat, x2 as nat, Seq::empty(), Seq::empty());
        },
        (Opcode::LoadBCD { x: x1 }, Opcode::LoadBCD { x: x2 }) => {
            assert(mnemonic_of(a) =~= "LD B, "@ + reg_token(x1 as nat));
            assert(mnemonic_of(b) =~= "LD B, "@ + reg_token(x2 as nat));
            lemma_cancel("LD B, "@, reg_token(x1 as nat), reg_token(x2 as nat));
            assert(reg_token(x1 as nat) + Seq::<char>::empty() =~= reg_token(x1 as nat));
            assert(reg_token(x2 as nat) + Seq::<char>::empty() =~= reg_token(x2 as nat));
            lemma_reg_peel(x1 as nat, x2 as nat, Seq::empty(), Seq::empty());
        },
        (Opcode::SaveRegisters { x: x1 }, Opcode::SaveRegisters { x: x2 }) => {
            assert(mnemonic_of(a) =~= "LD [I], "@ + reg_token(x1 as nat));
            assert(mnemonic_of(b) =~= "LD [I], "@ + reg_token(x2 as nat));
            lemma_cancel("LD [I], "@, reg_token(x1 as nat), reg_token(x2 as nat));
            assert(reg_token(x1 as nat) + Seq::<char>::empty() =~= reg_token(x1 as nat));
            assert(reg_token(x2 as nat) + Seq::<char>::empty() =~= reg_token(x2 as nat));
            lemma_reg_peel(x1 as nat, x2 as nat, Seq::empty(), Seq::empty());
        },
        (Opcode::LoadRegisters { x: x1 }, Opcode::LoadRegisters { x: x2 }) => {
            assert(mnemonic_of(a) =~= "LD "@ + (reg_token(x1 as nat) + ", [I]"@));
            assert(mnemonic_of(b) =~= "LD "@ + (reg_token(x2 as nat) + ", [I]"@));
            lemma_cancel("LD "@, reg_token(x1 as nat) + ", [I]"@, reg_token(x2 as nat) + ", [I]"@);
            lemma_reg_peel(x1 as nat, x2 as nat, ", [I]"@, ", [I]"@);
        },
        _ => {},
    }
}

/// The position of an instruction's form in the list of forms.
pub open spec fn form_index(op: Opcode) -> nat {
    match op {
        Opcode::ClearScreen => 0,
        Opcode::Return => 1,
        Opcode::Jump { .. } => 2,
        Opcode::Call { .. } => 3,
        Opcode::SkipEqualByte { .. } => 4,
        Opcode::SkipNotEqualByte { .. } => 5,
        Opcode::SkipEqual { .. } => 6,
        Opcode::SkipNotEqual { .. } => 7,
        Opcode::LoadByte { .. } => 8,
        Opcode::AddByte { .. } => 9,
        Opcode::Load { .. } => 10,
        Opcode::Or { .. } => 11,
        Opcode::And { .. } => 12,
        Opcode::Xor { .. } => 13,
        Opcode::Add { .. } => 14,
        Opcode::Sub { .. } => 15,
        Opcode::Shr { .. } => 16,
        Opcode::Shl { .. } => 17,
        Opcode::Subn { .. } => 18,
        Opcode::LoadI { .. } => 19,
        Opcode::JumpV0 { .. } => 20,
        Opcode::Random { .. } => 21,
        Opcode::Draw { .. } => 22,
        Opcode::SkipKeyPressed { .. } => 23,
        Opcode::SkipKeyNotPressed { .. } => 24,
        Opcode::LoadDelayTimer { .. } => 25,
        Opcode::WaitKeyPressed { .. } => 26,
        Opcode::LoadToDelayTimer { .. } => 27,
        Opcode::LoadToSoundTimer { .. } => 28,
        Opcode::AddI { .. } => 29,
        Opcode::LoadSprite { .. } => 30,
        Opcode::LoadBCD { .. } => 31,
        Opcode::SaveRegisters { .. } => 32,
        Opcode::LoadRegisters { .. } => 33,
    }
}

/// The form that a mnemonic's leading characters name, read at fixed
/// positions; 34 when they name none.
pub open spec fn form_of_text(s: Seq<char>) -> nat {
    if s.len() > 0 && s[0] == 'C' {
        if s.len() > 1 && s[1] == 'L' {
            0
        } else if s.len() > 1 && s[1] == 'A' {
            3
        } else {
            34
        }
    } else if s.len() > 0 && s[0] == 'R' {
        if s.len() > 1 && s[1] == 'E' {
            1
        } else if s.len() > 1 && s[1] == 'N' {
            21
        } else {
            34
        }
    } else if s.len() > 0 && s[0] == 'J' {
        if s.len() > 3 && s[3] == '0' {
            2
        } else if s.len() > 3 && s[3] == 'V' {
            20
        } else {
            34
        }
    } else if s.len() > 0 && s[0] == 'S' {
        if s.len() > 1 && s[1] == 'E' {
            if s.len() > 7 && s[7] == '0' {
                4
            } else if s.len() > 7 && s[7] == 'V' {
                6
            } else {
                34
            }
        } else if s.len() > 1 && s[1] == 'N' {
            if s.len() > 8 && s[8] == '0' {
                5
            } else if s.len() > 8 && s[8] == 'V' {
                7
            } else {
                34
            }
        } else if s.len() > 1 && s[1] == 'U' {
            if s.len() > 3 && s[3] == ' ' {
                15
            } else if s.len() > 3 && s[3] == 'N' {
                18
            } else {
                34
            }
        } else if s.len() > 1 && s[1] == 'H' {
            if s.len() > 2 && s[2] == 'R' {
                16
            } else if s.len() > 2 && s[2] == 'L' {
                17
            } else {
                34
            }
        } else if s.len() > 1 && s[1] == 'K' {
            if s.len() > 2 && s[2] == 'P' {
                23
            } else if s.len() > 2 && s[2] == 'N' {
                24
            } else {
                34
            }
        } else {
            34
        }
    } else if s.len() > 0 && s[0] == 'L' {
        if s.len() > 3 && s[3] == 'V' {
            if s.len() > 7 && s[7] == '0' {
                8
            } else if s.len() > 7 && s[7] == 'V' {
                10
            } else if s.len() > 7 && s[7] == 'D' {
                25
            } else if s.len() > 7 && s[7] == 'K' {
                26
            } else if s.len() > 7 && s[7] == '[' {
                33
            } else {
                34
            }
        } else if s.len() > 3 && s[3] == 'I' {
            19
        } else if s.len() > 3 && s[3] == 'D' {
            27
        } else if s.len() > 3 && s[3] == 'S' {
            28
        } else if s.len() > 3 && s[3] == 'F' {
            30
        } else if s.len() > 3 && s[3] == 'B' {
            31
        } else if s.len() > 3 && s[3] == '[' {
            32
        } else {
            34
        }
    } else if s.len() > 0 && s[0] == 'A' {
        if s.len() > 1 && s[1] == 'D' {
            if s.len() > 4 && s[4] == 'V' {
                if s.len() > 8 && s[8] == '0' {
                    9
                } else if s.len() > 8 && s[8] == 'V' {
                    14
                } else {
                    34
                }
            } else if s.len() > 4 && s[4] == 'I' {
                29
            } else {
                34
            }
        } else if s.len() > 1 && s[1] == 'N' {
            12
        } else {
            34
        }
    } else if s.len() > 0 && s[0] == 'O' {
        11
    } else if s.len() > 0 && s[0] == 'X' {
        13
    } else if s.len() > 0 && s[0] == 'D' {
        22
    } else {
        34
    }
}

proof fn lemma_reg_chars(x: nat)
    requires
        x < 16,
    ensures
        reg_token(x) == seq!['V', hex_char(x)],
{
    reveal_strlit("V");
    assert(digits(x, 16) =~= seq![hex_char(x)]);
    assert(reg_token(x) =~= seq!['V', hex_char(x)]);
}

proof fn lemma_hex_chars(v: nat)
    ensures
        hex_token(v).len() >= 3,
        hex_token(v)[0] == '0',
        hex_token(v)[1] == 'x',
{
    reveal_strlit("0x");
}

/// The leading characters of a mnemonic name the instruction's form.
#[verifier::rlimit(100)]
pub proof fn lemma_text_names_form(op: Opcode)
    requires
        op.wf(),
    ensures
        form_of_text(mnemonic_of(op)) == form_index(op),
{
    match op {
        Opcode::ClearScreen => {
            reveal_strlit("CLR");
        },
        Opcode::Return => {
            reveal_strlit("RET");
        },
        Opcode::Jump { addr } => {
            reveal_strlit("JP ");
            lemma_hex_chars(addr as nat);
        },
        Opcode::Call { addr } => {
            reveal_strlit("CALL ");
            lemma_hex_chars(addr as nat);
        },
        Opcode::SkipEqualByte { x, kk } => {
            reveal_strlit("SE ");
            reveal_strlit(", ");
            lemma_reg_chars(x as nat);
            lemma_hex_chars(kk as nat);
        },
        Opcode::SkipNotEqualByte { x, kk } => {
            reveal_strlit("SNE ");
            reveal_strlit(", ");
            lemma_reg_chars(x as nat);
            lemma_hex_chars(kk as nat);
        },
        Opcode::SkipEqual { x, y } => {
            reveal_strlit("SE ");
            reveal_strlit(", ");
            lemma_reg_chars(x as nat);
            lemma_reg_chars(y as nat);
        },
        Opcode::SkipNotEqual { x, y } => {
            reveal_strlit("SNE ");
            reveal_strlit(", ");
            lemma_reg_chars(x as nat);
            lemma_reg_chars(y as nat);
        },
        Opcode::LoadByte { x, kk } => {
            reveal_strlit("LD ");
            reveal_strlit(", ");
            lemma_reg_chars(x as nat);
            lemma_hex_chars(kk as nat);
        },
        Opcode::AddByte { x, kk } => {
            reveal_strlit("ADD ");
            reveal_strlit(", ");
            lemma_reg_chars(x as nat);
            lemma_hex_chars(kk as nat);
        },
        Opcode::Load { x, y } => {
            reveal_strlit("LD ");
            reveal_strlit(", ");
            lemma_reg_chars(x as nat);
            lemma_reg_chars(y as nat);
        },
        Opcode::Or { x, y } => {
            reveal_strlit("OR ");
            reveal_strlit(", ");
            lemma_reg_chars(x as nat);
            lemma_reg_chars(y as nat);
        },
        Opcode::And { x, y } => {
            reveal_strlit("AND ");
            reveal_strlit(", ");
            lemma_reg_chars(x as nat);
            lemma_reg_chars(y as nat);
        },
        Opcode::Xor { x, y } => {
            reveal_strlit("XOR ");
            reveal_strlit(", ");
            lemma_reg_chars(x as nat);
            lemma_reg_chars(y as nat);
        },
        Opcode::Add { x, y } => {
            reveal_strlit("ADD ");
            reveal_strlit(", ");
            lemma_reg_chars(x as nat);
            lemma_reg_chars(y as nat);
        },
        Opcode::Sub { x, y } => {
            reveal_strlit("SUB ");
            reveal_strlit(", ");
            lemma_reg_chars(x as nat);
            lemma_reg_chars(y as nat);
        },
        Opcode::Shr { x, y } => {
            reveal_strlit("SHR ");
            reveal_strlit(", ");
            lemma_reg_chars(x as nat);
            lemma_reg_chars(y as nat);
        },
        Opcode::Shl { x, y } => {
            reveal_strlit("SHL ");
            reveal_strlit(", ");
            lemma_reg_chars(x as nat);
            lemma_reg_chars(y as nat);
        },
        Opcode::Subn { x, y } => {
            reveal_strlit("SUBN ");
            reveal_strlit(", ");
            lemma_reg_chars(x as nat);
            lemma_reg_chars(y as nat);
        },
        Opcode::LoadI { addr } => {
            reveal_strlit("LD I, ");
            lemma_hex_chars(addr as nat);
        },
        Opcode::JumpV0 { addr } => {
            reveal_strlit("JP V0, ");
            lemma_hex_chars(addr as nat);
        },
        Opcode::Random { x, kk } => {
            reveal_strlit("RND ");
            reveal_strlit(", ");
            lemma_reg_chars(x as nat);
            lemma_hex_chars(kk as nat);
        },
        Opcode::Draw { x, y, n } => {
            reveal_strlit("DRW ");
            reveal_strlit(", ");
            lemma_reg_chars(x as nat);
            lemma_reg_chars(y as nat);
        },
        Opcode::SkipKeyPressed { x } => {
            reveal_strlit("SKP ");
            lemma_reg_chars(x as nat);
        },
        Opcode::SkipKeyNotPressed { x } => {
            reveal_strlit("SKNP ");
            lemma_reg_chars(x as nat);
        },
        Opcode::LoadDelayTimer { x } => {
            reveal_strlit("LD ");
            reveal_strlit(", DT");
            lemma_reg_chars(x as nat);
        },
        Opcode::WaitKeyPressed { x } => {
            reveal_strlit("LD ");
            reveal_strlit(", K");
            lemma_reg_chars(x as nat);
        },
        Opcode::LoadToDelayTimer { x } => {
            reveal_strlit("LD DT, ");
            lemma_reg_chars(x as nat);
        },
        Opcode::LoadToSoundTimer { x } => {
            reveal_strlit("LD ST, ");
            lemma_reg_chars(x as nat);
        },
        Opcode::AddI { x } => {
            reveal_strlit("ADD I, ");
            lemma_reg_chars(x as nat);
        },
        Opcode::LoadSprite { x } => {
            reveal_strlit("LD F, ");
            lemma_reg_chars(x as nat);
        },
        Opcode::LoadBCD { x } => {
            reveal_strlit("LD B, ");
            lemma_reg_chars(x as nat);
        },
        Opcode::SaveRegisters { x } => {
            reveal_strlit("LD [I], ");
            lemma_reg_chars(x as nat);
        },
        Opcode::LoadRegisters { x } => {
            reveal_strlit("LD ");
            reveal_strlit(", [I]");
            lemma_reg_chars(x as nat);
        },
    }
}

/// The mnemonic loses nothing: two instructions with operands in range and
/// the same text are the same instruction, form and operands alike.
pub proof fn lemma_mnemonic_injective(a: Opcode, b: Opcode)
    requires
        a.wf(),
        b.wf(),
        mnemonic_of(a) == mnemonic_of(b),
    ensures
        a == b,
{
    lemma_text_names_form(a);
    lemma_text_names_form(b);
    assert(same_form(a, b));
    lemma_mnemonic_keeps_operands(a, b);
}

/// Each operand token of a mnemonic reads back as its operand: a register
/// token is `V` and one digit whose value is the register; an address or
/// byte token is `0x` and digits whose hexadecimal value is the number; a
/// sprite height is digits whose decimal value is the height.
pub proof fn lemma_operand_tokens_read_back(x: nat, v: nat, n: nat)
    requires
        x < 16,
    ensures
        reg_token(x).len() == 2,
        reg_token(x)[0] == 'V',
        digit_value(reg_token(x)[1]) == x,
        hex_token(v).subrange(0, 2) == "0x"@,
        digits_value(hex_token(v).subrange(2, hex_token(v).len() as int), 16) == v,
        digits_value(digits(n, 10), 10) == n,
{
    lemma_reg_chars(x);
    reveal_strlit("0x");
    assert(hex_token(v).subrange(0, 2) =~= "0x"@);
    assert(hex_token(v).subrange(2, hex_token(v).len() as int) =~= digits(v, 16));
    lemma_digits_round_trip(v, 16);
    lemma_digits_round_trip(n, 10);
}

} // verus!
