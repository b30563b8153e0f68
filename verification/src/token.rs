//! Core data model: registers, register pairs, opcodes, tokens, and the
//! scan-error taxonomy, together with their specification-level views.

use vstd::prelude::*;

verus! {

/// A single 8-bit register operand.
///
/// `Unrecognized` is a sentinel for a character outside {A,B,C,D,E,H,L}; it is
/// used only transiently while resolving an operand and never appears inside a
/// finished token (the scanner fails with `MalformedRegister` instead).
#[derive(Clone, Copy, Debug, PartialEq, Eq, Structural)]
pub enum Register {
    A,
    B,
    C,
    D,
    E,
    H,
    L,
    Unrecognized,
}

/// What `Register::from_char` resolves a character to.
pub open spec fn reg_from_char(c: char) -> Register {
    if c == 'A' {
        Register::A
    } else if c == 'B' {
        Register::B
    } else if c == 'C' {
        Register::C
    } else if c == 'D' {
        Register::D
    } else if c == 'E' {
        Register::E
    } else if c == 'H' {
        Register::H
    } else if c == 'L' {
        Register::L
    } else {
        Register::Unrecognized
    }
}

impl Register {
    /// Resolves one source character to a register, or to the transient
    /// `Unrecognized` sentinel when the character names no register.
    pub fn from_char(c: char) -> (r: Register)
        ensures
            r == reg_from_char(c),
    {
        match c {
            'A' => Register::A,
            'B' => Register::B,
            'C' => Register::C,
            'D' => Register::D,
            'E' => Register::E,
            'H' => Register::H,
            'L' => Register::L,
            _ => Register::Unrecognized,
        }
    }
}

/// A 16-bit register pair operand. `S` stands for the stack-pointer pair,
/// written `SP` in source text.
#[derive(Clone, Copy, Debug, PartialEq, Eq, Structural)]
pub enum RegisterPair {
    B,
    D,
    H,
    S,
}

/// One instruction form together with exactly the operands that form carries.
///
/// A value is only ever built by the scanner after it has resolved operands of
/// the matching shape, so an opcode can never hold an operand combination its
/// instruction form disallows.
#[derive(Clone, Copy, Debug, PartialEq, Eq, Structural)]
pub enum Opcode {
    Add(Register),
    Adc(Register),
    Sub(Register),
    Sbb(Register),
    Ana(Register),
    Xra(Register),
    Ora(Register),
    Cmp(Register),
    Mov(Register, Register),
    Mvi(Register, u8),
    Lxi(RegisterPair, u16),
    Sta(u16),
    Lda(u16),
    Shld(u16),
    Lhld(u16),
    Stax(RegisterPair),
    Ldax(RegisterPair),
    Xchg,
    Xthl,
    Sphl,
    Pchl,
    Jmp(u16),
    Jnz(u16),
    Jz(u16),
    Jnc(u16),
    Jc(u16),
    Jpo(u16),
    Jpe(u16),
    Jp(u16),
    Jm(u16),
    Call(u16),
    Cnz(u16),
    Cz(u16),
    Cnc(u16),
    Cc(u16),
    Cpo(u16),
    Cpe(u16),
    Cp(u16),
    Cm(u16),
    Ret,
    Rnz,
    Rz,
    Rnc,
    Rc,
    Rpo,
    Rpe,
    Rp,
    Rm,
    Rst(u8),
    Dcr(Register),
    Inr(Register),
    Dcx(RegisterPair),
    Inx(RegisterPair),
    Cma,
    Cmc,
    Stc,
    Dad(RegisterPair),
    Push(RegisterPair),
    Pop(RegisterPair),
    Hlt,
    Eof,
}

/// One recognized instruction: its opcode, the exact source text it was
/// scanned from, and its source position (1-based line, 0-based column of the
/// token's start within that line).
#[derive(Debug, PartialEq)]
pub struct Token {
    pub opcode: Opcode,
    pub lexeme: Vec<u8>,
    pub line: usize,
    pub column: usize,
}

/// Specification-level image of a `Token`.
pub struct SpecToken {
    pub opcode: Opcode,
    pub lexeme: Seq<u8>,
    pub line: int,
    pub column: int,
}

impl View for Token {
    type V = SpecToken;

    open spec fn view(&self) -> SpecToken {
        SpecToken {
            opcode: self.opcode,
            lexeme: self.lexeme@,
            line: self.line as int,
            column: self.column as int,
        }
    }
}

/// Copies a byte vector element by element.
fn copy_bytes(v: &Vec<u8>) -> (r: Vec<u8>)
    ensures
        r@ == v@,
{
    let mut r: Vec<u8> = Vec::new();
    let mut i: usize = 0;
    while i < v.len()
        invariant
            i <= v.len(),
            r@ == v@.subrange(0, i as int),
        decreases v.len() - i,
    {
        r.push(v[i]);
        i = i + 1;
        proof {
            assert(r@ =~= v@.subrange(0, i as int));
        }
    }
    proof {
        assert(r@ =~= v@);
    }
    r
}

impl Clone for Token {
    fn clone(&self) -> (r: Token)
        ensures
            r@ == self@,
    {
        Token {
            opcode: self.opcode,
            lexeme: copy_bytes(&self.lexeme),
            line: self.line,
            column: self.column,
        }
    }
}

/// Why a scan pass failed. Every variant carries the exact position (1-based
/// line, 0-based column) and the offending text, so a caller can point at the
/// malformed source without re-scanning.
#[derive(Debug, PartialEq)]
pub enum ScanError {
    /// A character that can start no instruction stood where a token start was
    /// expected.
    UnexpectedCharacter { line: usize, column: usize, found: u8 },
    /// The mnemonic is not in the instruction catalog.
    UnknownInstruction { line: usize, column: usize, mnemonic: Vec<u8> },
    /// The mnemonic is known, but the scanned operand text matches no form of
    /// it; `got` holds the offending operand text.
    InvalidOperandShape { line: usize, column: usize, mnemonic: Vec<u8>, got: Vec<u8> },
    /// An operand position expecting a single register held a character
    /// outside {A,B,C,D,E,H,L}.
    MalformedRegister { line: usize, column: usize, found: u8 },
    /// An immediate or address operand's digit run is absent, of the wrong
    /// length, or contains a non-digit character.
    MalformedNumericOperand { line: usize, column: usize, text: Vec<u8> },
    /// The `RST` operand is a digit outside 0..=7.
    OutOfRangeRestartVector { line: usize, column: usize, digit: u8 },
}

/// Specification-level image of a `ScanError`.
pub enum SpecScanError {
    UnexpectedCharacter { line: int, column: int, found: u8 },
    UnknownInstruction { line: int, column: int, mnemonic: Seq<u8> },
    InvalidOperandShape { line: int, column: int, mnemonic: Seq<u8>, got: Seq<u8> },
    MalformedRegister { line: int, column: int, found: u8 },
    MalformedNumericOperand { line: int, column: int, text: Seq<u8> },
    OutOfRangeRestartVector { line: int, column: int, digit: u8 },
}

impl View for ScanError {
    type V = SpecScanError;

    open spec fn view(&self) -> SpecScanError {
        match self {
            ScanError::UnexpectedCharacter { line, column, found } => {
                SpecScanError::UnexpectedCharacter {
                    line: *line as int,
                    column: *column as int,
                    found: *found,
                }
            },
            ScanError::UnknownInstruction { line, column, mnemonic } => {
                SpecScanError::UnknownInstruction {
                    line: *line as int,
                    column: *column as int,
                    mnemonic: mnemonic@,
                }
            },
            ScanError::InvalidOperandShape { line, column, mnemonic, got } => {
                SpecScanError::InvalidOperandShape {
                    line: *line as int,
                    column: *column as int,
                    mnemonic: mnemonic@,
                    got: got@,
                }
            },
            ScanError::MalformedRegister { line, column, found } => {
                SpecScanError::MalformedRegister {
                    line: *line as int,
                    column: *column as int,
                    found: *found,
                }
            },
            ScanError::MalformedNumericOperand { line, column, text } => {
                SpecScanError::MalformedNumericOperand {
                    line: *line as int,
                    column: *column as int,
                    text: text@,
                }
            },
            ScanError::OutOfRangeRestartVector { line, column, digit } => {
                SpecScanError::OutOfRangeRestartVector {
                    line: *line as int,
                    column: *column as int,
                    digit: *digit,
                }
            },
        }
    }
}

} // verus!
