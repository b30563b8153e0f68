//! Instruction catalog: maps mnemonic text to an operand shape and, once the
//! operands are resolved, to the concrete opcode. Pure data, no runtime state.

use vstd::prelude::*;
use crate::token::Opcode;
use crate::token::Register;
use crate::token::RegisterPair;

verus! {

/// The operand arity and kind of one instruction family.
#[derive(Clone, Copy, Debug, PartialEq, Eq, Structural)]
pub enum Shape {
    /// No operand (`HLT`, `RET`, `XCHG`, ...).
    Zero,
    /// One single register (`ADD B`, `INR A`, ...).
    Reg,
    /// One register pair (`DCX H`, `PUSH B`, ...).
    Pair,
    /// One 16-bit address of four hexadecimal digits (`JMP 0100`, `STA 2000`, ...).
    Addr,
    /// Register, comma, 8-bit immediate of two hexadecimal digits (`MVI A,03`).
    RegImm,
    /// Register, comma, register (`MOV A,B`).
    RegReg,
    /// Register pair, comma, 16-bit immediate of four hexadecimal digits (`LXI B,1234`).
    PairImm,
    /// One decimal digit 0..=7, a restart vector (`RST 7`).
    Rst,
}

/// The mnemonic is exactly the two bytes `a`, `b`.
pub open spec fn m2(m: Seq<u8>, a: u8, b: u8) -> bool {
    m.len() == 2 && m[0] == a && m[1] == b
}

/// The mnemonic is exactly the three bytes `a`, `b`, `c`.
pub open spec fn m3(m: Seq<u8>, a: u8, b: u8, c: u8) -> bool {
    m.len() == 3 && m[0] == a && m[1] == b && m[2] == c
}

/// The mnemonic is exactly the four bytes `a`, `b`, `c`, `d`.
pub open spec fn m4(m: Seq<u8>, a: u8, b: u8, c: u8, d: u8) -> bool {
    m.len() == 4 && m[0] == a && m[1] == b && m[2] == c && m[3] == d
}

/// The operand shape of a mnemonic, or `None` for an unknown instruction.
pub open spec fn shape_of(m: Seq<u8>) -> Option<Shape> {
    if zero_opcode(m) is Some {
        Some(Shape::Zero)
    } else if reg_head(m) is Some {
        Some(Shape::Reg)
    } else if pair_head(m) is Some {
        Some(Shape::Pair)
    } else if addr_head(m) is Some {
        Some(Shape::Addr)
    } else if m3(m, 77, 86, 73) {
        Some(Shape::RegImm)
    } else if m3(m, 77, 79, 86) {
        Some(Shape::RegReg)
    } else if m3(m, 76, 88, 73) {
        Some(Shape::PairImm)
    } else if m3(m, 82, 83, 84) {
        Some(Shape::Rst)
    } else {
        None
    }
}

/// The opcode of a zero-operand mnemonic.
pub open spec fn zero_opcode(m: Seq<u8>) -> Option<Opcode> {
    if m4(m, 88, 67, 72, 71) {
        Some(Opcode::Xchg)
    } else if m4(m, 88, 84, 72, 76) {
        Some(Opcode::Xthl)
    } else if m4(m, 83, 80, 72, 76) {
        Some(Opcode::Sphl)
    } else if m4(m, 80, 67, 72, 76) {
        Some(Opcode::Pchl)
    } else if m3(m, 82, 69, 84) {
        Some(Opcode::Ret)
    } else if m3(m, 82, 78, 90) {
        Some(Opcode::Rnz)
    } else if m2(m, 82, 90) {
        Some(Opcode::Rz)
    } else if m3(m, 82, 78, 67) {
        Some(Opcode::Rnc)
    } else if m2(m, 82, 67) {
        Some(Opcode::Rc)
    } else if m3(m, 82, 80, 79) {
        Some(Opcode::Rpo)
    } else if m3(m, 82, 80, 69) {
        Some(Opcode::Rpe)
    } else if m2(m, 82, 80) {
        Some(Opcode::Rp)
    } else if m2(m, 82, 77) {
        Some(Opcode::Rm)
    } else if m3(m, 67, 77, 65) {
        Some(Opcode::Cma)
    } else if m3(m, 67, 77, 67) {
        Some(Opcode::Cmc)
    } else if m3(m, 83, 84, 67) {
        Some(Opcode::Stc)
    } else if m3(m, 72, 76, 84) {
        Some(Opcode::Hlt)
    } else {
        None
    }
}

/// Which single-register instruction family a mnemonic names.
pub open spec fn reg_head(m: Seq<u8>) -> Option<spec_fn(Register) -> Opcode> {
    if m3(m, 65, 68, 68) {
        Some(|r: Register| Opcode::Add(r))
    } else if m3(m, 65, 68, 67) {
        Some(|r: Register| Opcode::Adc(r))
    } else if m3(m, 83, 85, 66) {
        Some(|r: Register| Opcode::Sub(r))
    } else if m3(m, 83, 66, 66) {
        Some(|r: Register| Opcode::Sbb(r))
    } else if m3(m, 65, 78, 65) {
        Some(|r: Register| Opcode::Ana(r))
    } else if m3(m, 88, 82, 65) {
        Some(|r: Register| Opcode::Xra(r))
    } else if m3(m, 79, 82, 65) {
        Some(|r: Register| Opcode::Ora(r))
    } else if m3(m, 67, 77, 80) {
        Some(|r: Register| Opcode::Cmp(r))
    } else if m3(m, 68, 67, 82) {
        Some(|r: Register| Opcode::Dcr(r))
    } else if m3(m, 73, 78, 82) {
        Some(|r: Register| Opcode::Inr(r))
    } else {
        None
    }
}

/// The opcode of a single-register mnemonic applied to register `r`.
pub open spec fn reg_opcode(m: Seq<u8>, r: Register) -> Option<Opcode> {
    match reg_head(m) {
        Some(f) => Some(f(r)),
        None => None,
    }
}

/// Which register-pair instruction family a mnemonic names.
pub open spec fn pair_head(m: Seq<u8>) -> Option<spec_fn(RegisterPair) -> Opcode> {
    if m3(m, 68, 67, 88) {
        Some(|p: RegisterPair| Opcode::Dcx(p))
    } else if m3(m, 73, 78, 88) {
        Some(|p: RegisterPair| Opcode::Inx(p))
    } else if m3(m, 68, 65, 68) {
        Some(|p: RegisterPair| Opcode::Dad(p))
    } else if m4(m, 80, 85, 83, 72) {
        Some(|p: RegisterPair| Opcode::Push(p))
    } else if m3(m, 80, 79, 80) {
        Some(|p: RegisterPair| Opcode::Pop(p))
    } else if m4(m, 83, 84, 65, 88) {
        Some(|p: RegisterPair| Opcode::Stax(p))
    } else if m4(m, 76, 68, 65, 88) {
        Some(|p: RegisterPair| Opcode::Ldax(p))
    } else {
        None
    }
}

/// The opcode of a register-pair mnemonic applied to pair `p`.
pub open spec fn pair_opcode(m: Seq<u8>, p: RegisterPair) -> Option<Opcode> {
    match pair_head(m) {
        Some(f) => Some(f(p)),
        None => None,
    }
}

/// Which address instruction family a mnemonic names.
pub open spec fn addr_head(m: Seq<u8>) -> Option<spec_fn(u16) -> Opcode> {
    if m3(m, 83, 84, 65) {
        Some(|a: u16| Opcode::Sta(a))
    } else if m3(m, 76, 68, 65) {
        Some(|a: u16| Opcode::Lda(a))
    } else if m4(m, 83, 72, 76, 68) {
        Some(|a: u16| Opcode::Shld(a))
    } else if m4(m, 76, 72, 76, 68) {
        Some(|a: u16| Opcode::Lhld(a))
    } else if m3(m, 74, 77, 80) {
        Some(|a: u16| Opcode::Jmp(a))
    } else if m3(m, 74, 78, 90) {
        Some(|a: u16| Opcode::Jnz(a))
    } else if m2(m, 74, 90) {
        Some(|a: u16| Opcode::Jz(a))
    } else if m3(m, 74, 78, 67) {
        Some(|a: u16| Opcode::Jnc(a))
    } else if m2(m, 74, 67) {
        Some(|a: u16| Opcode::Jc(a))
    } else if m3(m, 74, 80, 79) {
        Some(|a: u16| Opcode::Jpo(a))
    } else if m3(m, 74, 80, 69) {
        Some(|a: u16| Opcode::Jpe(a))
    } else if m2(m, 74, 80) {
        Some(|a: u16| Opcode::Jp(a))
    } else if m2(m, 74, 77) {
        Some(|a: u16| Opcode::Jm(a))
    } else if m4(m, 67, 65, 76, 76) {
        Some(|a: u16| Opcode::Call(a))
    } else if m3(m, 67, 78, 90) {
        Some(|a: u16| Opcode::Cnz(a))
    } else if m2(m, 67, 90) {
        Some(|a: u16| Opcode::Cz(a))
    } else if m3(m, 67, 78, 67) {
        Some(|a: u16| Opcode::Cnc(a))
    } else if m2(m, 67, 67) {
        Some(|a: u16| Opcode::Cc(a))
    } else if m3(m, 67, 80, 79) {
        Some(|a: u16| Opcode::Cpo(a))
    } else if m3(m, 67, 80, 69) {
        Some(|a: u16| Opcode::Cpe(a))
    } else if m2(m, 67, 80) {
        Some(|a: u16| Opcode::Cp(a))
    } else if m2(m, 67, 77) {
        Some(|a: u16| Opcode::Cm(a))
    } else {
        None
    }
}

/// The opcode of an address mnemonic applied to address `a`.
pub open spec fn addr_opcode(m: Seq<u8>, a: u16) -> Option<Opcode> {
    match addr_head(m) {
        Some(f) => Some(f(a)),
        None => None,
    }
}

/// The register named by an operand byte, or `None` for a byte outside
/// {A,B,C,D,E,H,L}.
pub open spec fn reg_of_byte(b: u8) -> Option<Register> {
    if b == 65 {
        Some(Register::A)
    } else if b == 66 {
        Some(Register::B)
    } else if b == 67 {
        Some(Register::C)
    } else if b == 68 {
        Some(Register::D)
    } else if b == 69 {
        Some(Register::E)
    } else if b == 72 {
        Some(Register::H)
    } else if b == 76 {
        Some(Register::L)
    } else {
        None
    }
}

/// The register pair named by an operand text: `B`, `D`, `H`, or `SP`.
pub open spec fn pair_of_text(t: Seq<u8>) -> Option<RegisterPair> {
    if t.len() == 1 && t[0] == 66 {
        Some(RegisterPair::B)
    } else if t.len() == 1 && t[0] == 68 {
        Some(RegisterPair::D)
    } else if t.len() == 1 && t[0] == 72 {
        Some(RegisterPair::H)
    } else if m2(t, 83, 80) {
        Some(RegisterPair::S)
    } else {
        None
    }
}

/// Exact two-byte mnemonic comparison.
fn e2(m: &Vec<u8>, a: u8, b: u8) -> (r: bool)
    ensures
        r == m2(m@, a, b),
{
    m.len() == 2 && m[0] == a && m[1] == b
}

/// Exact three-byte mnemonic comparison.
fn e3(m: &Vec<u8>, a: u8, b: u8, c: u8) -> (r: bool)
    ensures
        r == m3(m@, a, b, c),
{
    m.len() == 3 && m[0] == a && m[1] == b && m[2] == c
}

/// Exact four-byte mnemonic comparison.
fn e4(m: &Vec<u8>, a: u8, b: u8, c: u8, d: u8) -> (r: bool)
    ensures
        r == m4(m@, a, b, c, d),
{
    m.len() == 4 && m[0] == a && m[1] == b && m[2] == c && m[3] == d
}

/// Looks a mnemonic up in the catalog and returns its operand shape.
pub fn lookup_shape(m: &Vec<u8>) -> (r: Option<Shape>)
    ensures
        r == shape_of(m@),
{
    if let Some(_op) = build_zero(m) {
        Some(Shape::Zero)
    } else if e3(m, 65, 68, 68) || e3(m, 65, 68, 67) || e3(m, 83, 85, 66)
        || e3(m, 83, 66, 66) || e3(m, 65, 78, 65) || e3(m, 88, 82, 65)
        || e3(m, 79, 82, 65) || e3(m, 67, 77, 80) || e3(m, 68, 67, 82)
        || e3(m, 73, 78, 82) {
        Some(Shape::Reg)
    } else if e3(m, 68, 67, 88) || e3(m, 73, 78, 88) || e3(m, 68, 65, 68)
        || e4(m, 80, 85, 83, 72) || e3(m, 80, 79, 80)
        || e4(m, 83, 84, 65, 88) || e4(m, 76, 68, 65, 88) {
        Some(Shape::Pair)
    } else if e3(m, 83, 84, 65) || e3(m, 76, 68, 65) || e4(m, 83, 72, 76, 68)
        || e4(m, 76, 72, 76, 68) || e3(m, 74, 77, 80) || e3(m, 74, 78, 90)
        || e2(m, 74, 90) || e3(m, 74, 78, 67) || e2(m, 74, 67)
        || e3(m, 74, 80, 79) || e3(m, 74, 80, 69) || e2(m, 74, 80)
        || e2(m, 74, 77) || e4(m, 67, 65, 76, 76) || e3(m, 67, 78, 90)
        || e2(m, 67, 90) || e3(m, 67, 78, 67) || e2(m, 67, 67)
        || e3(m, 67, 80, 79) || e3(m, 67, 80, 69) || e2(m, 67, 80)
        || e2(m, 67, 77) {
        Some(Shape::Addr)
    } else if e3(m, 77, 86, 73) {
        Some(Shape::RegImm)
    } else if e3(m, 77, 79, 86) {
        Some(Shape::RegReg)
    } else if e3(m, 76, 88, 73) {
        Some(Shape::PairImm)
    } else if e3(m, 82, 83, 84) {
        Some(Shape::Rst)
    } else {
        None
    }
}

/// Builds the opcode of a zero-operand mnemonic.
pub fn build_zero(m: &Vec<u8>) -> (r: Option<Opcode>)
    ensures
        r == zero_opcode(m@),
{
    if e4(m, 88, 67, 72, 71) {
        Some(Opcode::Xchg)
    } else if e4(m, 88, 84, 72, 76) {
        Some(Opcode::Xthl)
    } else if e4(m, 83, 80, 72, 76) {
        Some(Opcode::Sphl)
    } else if e4(m, 80, 67, 72, 76) {
        Some(Opcode::Pchl)
    } else if e3(m, 82, 69, 84) {
        Some(Opcode::Ret)
    } else if e3(m, 82, 78, 90) {
        Some(Opcode::Rnz)
    } else if e2(m, 82, 90) {
        Some(Opcode::Rz)
    } else if e3(m, 82, 78, 67) {
        Some(Opcode::Rnc)
    } else if e2(m, 82, 67) {
        Some(Opcode::Rc)
    } else if e3(m, 82, 80, 79) {
        Some(Opcode::Rpo)
    } else if e3(m, 82, 80, 69) {
        Some(Opcode::Rpe)
    } else if e2(m, 82, 80) {
        Some(Opcode::Rp)
    } else if e2(m, 82, 77) {
        Some(Opcode::Rm)
    } else if e3(m, 67, 77, 65) {
        Some(Opcode::Cma)
    } else if e3(m, 67, 77, 67) {
        Some(Opcode::Cmc)
    } else if e3(m, 83, 84, 67) {
        Some(Opcode::Stc)
    } else if e3(m, 72, 76, 84) {
        Some(Opcode::Hlt)
    } else {
        None
    }
}

/// Builds the opcode of a single-register mnemonic applied to `r`.
pub fn build_reg(m: &Vec<u8>, r: Register) -> (res: Option<Opcode>)
    ensures
        res == reg_opcode(m@, r),
{
    if e3(m, 65, 68, 68) {
        Some(Opcode::Add(r))
    } else if e3(m, 65, 68, 67) {
        Some(Opcode::Adc(r))
    } else if e3(m, 83, 85, 66) {
        Some(Opcode::Sub(r))
    } else if e3(m, 83, 66, 66) {
        Some(Opcode::Sbb(r))
    } else if e3(m, 65, 78, 65) {
        Some(Opcode::Ana(r))
    } else if e3(m, 88, 82, 65) {
        Some(Opcode::Xra(r))
    } else if e3(m, 79, 82, 65) {
        Some(Opcode::Ora(r))
    } else if e3(m, 67, 77, 80) {
        Some(Opcode::Cmp(r))
    } else if e3(m, 68, 67, 82) {
        Some(Opcode::Dcr(r))
    } else if e3(m, 73, 78, 82) {
        Some(Opcode::Inr(r))
    } else {
        None
    }
}

/// Builds the opcode of a register-pair mnemonic applied to `p`.
pub fn build_pair(m: &Vec<u8>, p: RegisterPair) -> (res: Option<Opcode>)
    ensures
        res == pair_opcode(m@, p),
{
    if e3(m, 68, 67, 88) {
        Some(Opcode::Dcx(p))
    } else if e3(m, 73, 78, 88) {
        Some(Opcode::Inx(p))
    } else if e3(m, 68, 65, 68) {
        Some(Opcode::Dad(p))
    } else if e4(m, 80, 85, 83, 72) {
        Some(Opcode::Push(p))
    } else if e3(m, 80, 79, 80) {
        Some(Opcode::Pop(p))
    } else if e4(m, 83, 84, 65, 88) {
        Some(Opcode::Stax(p))
    } else if e4(m, 76, 68, 65, 88) {
        Some(Opcode::Ldax(p))
    } else {
        None
    }
}

/// Builds the opcode of an address mnemonic applied to `a`.
pub fn build_addr(m: &Vec<u8>, a: u16) -> (res: Option<Opcode>)
    ensures
        res == addr_opcode(m@, a),
{
    if e3(m, 83, 84, 65) {
        Some(Opcode::Sta(a))
    } else if e3(m, 76, 68, 65) {
        Some(Opcode::Lda(a))
    } else if e4(m, 83, 72, 76, 68) {
        Some(Opcode::Shld(a))
    } else if e4(m, 76, 72, 76, 68) {
        Some(Opcode::Lhld(a))
    } else if e3(m, 74, 77, 80) {
        Some(Opcode::Jmp(a))
    } else if e3(m, 74, 78, 90) {
        Some(Opcode::Jnz(a))
    } else if e2(m, 74, 90) {
        Some(Opcode::Jz(a))
    } else if e3(m, 74, 78, 67) {
        Some(Opcode::Jnc(a))
    } else if e2(m, 74, 67) {
        Some(Opcode::Jc(a))
    } else if e3(m, 74, 80, 79) {
        Some(Opcode::Jpo(a))
    } else if e3(m, 74, 80, 69) {
        Some(Opcode::Jpe(a))
    } else if e2(m, 74, 80) {
        Some(Opcode::Jp(a))
    } else if e2(m, 74, 77) {
        Some(Opcode::Jm(a))
    } else if e4(m, 67, 65, 76, 76) {
        Some(Opcode::Call(a))
    } else if e3(m, 67, 78, 90) {
        Some(Opcode::Cnz(a))
    } else if e2(m, 67, 90) {
        Some(Opcode::Cz(a))
    } else if e3(m, 67, 78, 67) {
        Some(Opcode::Cnc(a))
    } else if e2(m, 67, 67) {
        Some(Opcode::Cc(a))
    } else if e3(m, 67, 80, 79) {
        Some(Opcode::Cpo(a))
    } else if e3(m, 67, 80, 69) {
        Some(Opcode::Cpe(a))
    } else if e2(m, 67, 80) {
        Some(Opcode::Cp(a))
    } else if e2(m, 67, 77) {
        Some(Opcode::Cm(a))
    } else {
        None
    }
}

/// Resolves a register operand byte.
pub fn resolve_reg(b: u8) -> (r: Option<Register>)
    ensures
        r == reg_of_byte(b),
{
    if b == 65 {
        Some(Register::A)
    } else if b == 66 {
        Some(Register::B)
    } else if b == 67 {
        Some(Register::C)
    } else if b == 68 {
        Some(Register::D)
    } else if b == 69 {
        Some(Register::E)
    } else if b == 72 {
        Some(Register::H)
    } else if b == 76 {
        Some(Register::L)
    } else {
        None
    }
}

/// Resolves a register-pair operand text.
pub fn resolve_pair(t: &Vec<u8>) -> (r: Option<RegisterPair>)
    ensures
        r == pair_of_text(t@),
{
    if t.len() == 1 && t[0] == 66 {
        Some(RegisterPair::B)
    } else if t.len() == 1 && t[0] == 68 {
        Some(RegisterPair::D)
    } else if t.len() == 1 && t[0] == 72 {
        Some(RegisterPair::H)
    } else if e2(t, 83, 80) {
        Some(RegisterPair::S)
    } else {
        None
    }
}

} // verus!
