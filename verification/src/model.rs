//! Specification-level model of the scan: a mathematical description of what
//! one left-to-right pass over the source text produces. The executable
//! scanner's contracts are stated against `scan_spec`.

use vstd::prelude::*;
use crate::token::Opcode;
use crate::token::SpecScanError;
use crate::token::SpecToken;
use crate::catalog::Shape;
use crate::catalog::shape_of;
use crate::catalog::zero_opcode;
use crate::catalog::reg_opcode;
use crate::catalog::pair_opcode;
use crate::catalog::addr_opcode;
use crate::catalog::reg_of_byte;
use crate::catalog::pair_of_text;

verus! {

/// Horizontal whitespace: space, tab, or carriage return.
pub open spec fn is_hws(b: u8) -> bool {
    b == 32 || b == 9 || b == 13
}

/// A line terminator.
pub open spec fn is_line_break(b: u8) -> bool {
    b == 10
}

/// Any skippable byte between tokens.
pub open spec fn is_blank(b: u8) -> bool {
    is_hws(b) || is_line_break(b)
}

/// An ASCII letter.
pub open spec fn is_alpha(b: u8) -> bool {
    (65 <= b && b <= 90) || (97 <= b && b <= 122)
}

/// An ASCII decimal digit.
pub open spec fn is_digit_byte(b: u8) -> bool {
    48 <= b && b <= 57
}

/// An ASCII letter or decimal digit.
pub open spec fn is_alnum(b: u8) -> bool {
    is_alpha(b) || is_digit_byte(b)
}

/// An ASCII hexadecimal digit, either case.
pub open spec fn is_hex_digit(b: u8) -> bool {
    is_digit_byte(b) || (65 <= b && b <= 70) || (97 <= b && b <= 102)
}

/// The numeric value of a hexadecimal digit.
pub open spec fn hex_digit_val(b: u8) -> int {
    if is_digit_byte(b) {
        b - 48
    } else if 65 <= b && b <= 70 {
        b - 55
    } else {
        b - 87
    }
}

/// The value of a run of hexadecimal digits, most significant first.
pub open spec fn hex_val(t: Seq<u8>) -> int
    decreases t.len(),
{
    if t.len() == 0 {
        0
    } else {
        hex_val(t.drop_last()) * 16 + hex_digit_val(t.last())
    }
}

/// Every byte of `t` is a hexadecimal digit.
pub open spec fn all_hex(t: Seq<u8>) -> bool {
    forall|i: int| 0 <= i < t.len() ==> is_hex_digit(t[i])
}

/// 16 to the power `n`.
pub open spec fn pow16(n: int) -> int
    decreases n,
{
    if n <= 0 {
        1
    } else {
        16 * pow16(n - 1)
    }
}

/// The end of the run of horizontal whitespace starting at `p`.
pub open spec fn hws_end(src: Seq<u8>, p: nat) -> nat
    decreases src.len() - p,
{
    if p < src.len() && is_hws(src[p as int]) {
        hws_end(src, p + 1)
    } else {
        p
    }
}

/// The end of the run of alphabetic bytes starting at `p`.
pub open spec fn alpha_end(src: Seq<u8>, p: nat) -> nat
    decreases src.len() - p,
{
    if p < src.len() && is_alpha(src[p as int]) {
        alpha_end(src, p + 1)
    } else {
        p
    }
}

/// The end of the run of alphanumeric bytes starting at `p`.
pub open spec fn alnum_end(src: Seq<u8>, p: nat) -> nat
    decreases src.len() - p,
{
    if p < src.len() && is_alnum(src[p as int]) {
        alnum_end(src, p + 1)
    } else {
        p
    }
}

/// The position of the next line terminator at or after `p`, or the end of
/// the source.
pub open spec fn line_end(src: Seq<u8>, p: nat) -> nat
    decreases src.len() - p,
{
    if p < src.len() && !is_line_break(src[p as int]) {
        line_end(src, p + 1)
    } else {
        p
    }
}

pub proof fn lemma_hws_end_props(src: Seq<u8>, p: nat)
    requires
        p <= src.len(),
    ensures
        p <= hws_end(src, p) <= src.len(),
        forall|i: int| p <= i < hws_end(src, p) ==> is_hws(src[i]),
        hws_end(src, p) < src.len() ==> !is_hws(src[hws_end(src, p) as int]),
    decreases src.len() - p,
{
    if p < src.len() && is_hws(src[p as int]) {
        lemma_hws_end_props(src, p + 1);
    }
}

pub proof fn lemma_alpha_end_props(src: Seq<u8>, p: nat)
    requires
        p <= src.len(),
    ensures
        p <= alpha_end(src, p) <= src.len(),
        forall|i: int| p <= i < alpha_end(src, p) ==> is_alpha(src[i]),
        alpha_end(src, p) < src.len() ==> !is_alpha(src[alpha_end(src, p) as int]),
    decreases src.len() - p,
{
    if p < src.len() && is_alpha(src[p as int]) {
        lemma_alpha_end_props(src, p + 1);
    }
}

pub proof fn lemma_alnum_end_props(src: Seq<u8>, p: nat)
    requires
        p <= src.len(),
    ensures
        p <= alnum_end(src, p) <= src.len(),
        forall|i: int| p <= i < alnum_end(src, p) ==> is_alnum(src[i]),
        alnum_end(src, p) < src.len() ==> !is_alnum(src[alnum_end(src, p) as int]),
    decreases src.len() - p,
{
    if p < src.len() && is_alnum(src[p as int]) {
        lemma_alnum_end_props(src, p + 1);
    }
}

pub proof fn lemma_line_end_props(src: Seq<u8>, p: nat)
    requires
        p <= src.len(),
    ensures
        p <= line_end(src, p) <= src.len(),
        forall|i: int| p <= i < line_end(src, p) ==> !is_line_break(src[i]),
        line_end(src, p) < src.len() ==> is_line_break(src[line_end(src, p) as int]),
    decreases src.len() - p,
{
    if p < src.len() && !is_line_break(src[p as int]) {
        lemma_line_end_props(src, p + 1);
    }
}

/// A cursor state: position, 1-based line, and the offset at which that line
/// starts (so a column is a position minus the line start).
pub struct ScanPos {
    pub pos: nat,
    pub line: nat,
    pub line_start: nat,
}

/// Skips whitespace and line terminators; each terminator increments the line
/// counter and starts a new line.
pub open spec fn skip_blanks(src: Seq<u8>, pos: nat, line: nat, line_start: nat) -> ScanPos
    decreases src.len() - pos,
{
    if pos < src.len() && is_line_break(src[pos as int]) {
        skip_blanks(src, pos + 1, line + 1, pos + 1)
    } else if pos < src.len() && is_hws(src[pos as int]) {
        skip_blanks(src, pos + 1, line, line_start)
    } else {
        ScanPos { pos, line, line_start }
    }
}

pub proof fn lemma_skip_blanks_props(src: Seq<u8>, pos: nat, line: nat, line_start: nat)
    ensures
        pos <= skip_blanks(src, pos, line, line_start).pos,
        pos <= src.len() ==> skip_blanks(src, pos, line, line_start).pos <= src.len(),
        line <= skip_blanks(src, pos, line, line_start).line,
        line_start <= pos ==> skip_blanks(src, pos, line, line_start).line_start
            <= skip_blanks(src, pos, line, line_start).pos,
        skip_blanks(src, pos, line, line_start).pos < src.len() ==> !is_blank(
            src[skip_blanks(src, pos, line, line_start).pos as int],
        ),
    decreases src.len() - pos,
{
    if pos < src.len() && is_line_break(src[pos as int]) {
        lemma_skip_blanks_props(src, pos + 1, line + 1, pos + 1);
    } else if pos < src.len() && is_hws(src[pos as int]) {
        lemma_skip_blanks_props(src, pos + 1, line, line_start);
    }
}

/// From `p` to the next line terminator or the end of input there is only
/// horizontal whitespace: the instruction's line carries nothing further.
pub open spec fn line_blank_from(src: Seq<u8>, p: nat) -> bool {
    hws_end(src, p) >= src.len() || is_line_break(src[hws_end(src, p) as int])
}

/// The error reported when a recognized instruction is followed by trailing
/// text its form does not allow.
pub open spec fn tail_err(src: Seq<u8>, p: nat, m: Seq<u8>, line: nat, ls: nat) -> SpecScanError {
    SpecScanError::InvalidOperandShape {
        line: line as int,
        column: hws_end(src, p) - ls,
        mnemonic: m,
        got: src.subrange(hws_end(src, p) as int, line_end(src, hws_end(src, p)) as int),
    }
}

/// Parses a single-register operand starting at `p` (after the mnemonic or a
/// comma): optional horizontal whitespace, then exactly one alphabetic
/// character naming a register.
pub open spec fn parse_reg_at(src: Seq<u8>, p: nat, line: nat, ls: nat, m: Seq<u8>) -> Result<
    (crate::token::Register, nat),
    SpecScanError,
> {
    let q = hws_end(src, p);
    if q >= src.len() || is_line_break(src[q as int]) {
        Err(SpecScanError::InvalidOperandShape {
            line: line as int,
            column: q - ls,
            mnemonic: m,
            got: Seq::empty(),
        })
    } else if !is_alpha(src[q as int]) {
        Err(SpecScanError::MalformedRegister {
            line: line as int,
            column: q - ls,
            found: src[q as int],
        })
    } else if alpha_end(src, q) != q + 1 {
        Err(SpecScanError::InvalidOperandShape {
            line: line as int,
            column: q - ls,
            mnemonic: m,
            got: src.subrange(q as int, alpha_end(src, q) as int),
        })
    } else {
        match reg_of_byte(src[q as int]) {
            Some(r) => Ok((r, q + 1)),
            None => Err(SpecScanError::MalformedRegister {
                line: line as int,
                column: q - ls,
                found: src[q as int],
            }),
        }
    }
}

/// Parses a register-pair operand starting at `p`: optional horizontal
/// whitespace, then `B`, `D`, `H`, or `SP`.
pub open spec fn parse_pair_at(src: Seq<u8>, p: nat, line: nat, ls: nat, m: Seq<u8>) -> Result<
    (crate::token::RegisterPair, nat),
    SpecScanError,
> {
    let q = hws_end(src, p);
    let e = alpha_end(src, q);
    match pair_of_text(src.subrange(q as int, e as int)) {
        Some(rp) => Ok((rp, e)),
        None => Err(SpecScanError::InvalidOperandShape {
            line: line as int,
            column: q - ls,
            mnemonic: m,
            got: src.subrange(q as int, e as int),
        }),
    }
}

/// Consumes the comma between two operands, with optional horizontal
/// whitespace before it.
pub open spec fn parse_comma_at(src: Seq<u8>, p: nat, line: nat, ls: nat, m: Seq<u8>) -> Result<
    nat,
    SpecScanError,
> {
    let q = hws_end(src, p);
    if q < src.len() && src[q as int] == 44 {
        Ok((q + 1) as nat)
    } else {
        Err(SpecScanError::InvalidOperandShape {
            line: line as int,
            column: q - ls,
            mnemonic: m,
            got: src.subrange(q as int, line_end(src, q) as int),
        })
    }
}

/// Parses a numeric operand of exactly `w` hexadecimal digits starting at
/// `p`, after optional horizontal whitespace. Returns its value and end.
pub open spec fn parse_num_at(src: Seq<u8>, p: nat, w: nat, line: nat, ls: nat) -> Result<
    (int, nat),
    SpecScanError,
> {
    let q = hws_end(src, p);
    let e = alnum_end(src, q);
    let t = src.subrange(q as int, e as int);
    if e - q == w && all_hex(t) {
        Ok((hex_val(t), e))
    } else {
        Err(SpecScanError::MalformedNumericOperand {
            line: line as int,
            column: q - ls,
            text: t,
        })
    }
}

/// Parses the `RST` operand: one decimal digit, which must lie in 0..=7.
pub open spec fn parse_rst_at(src: Seq<u8>, p: nat, line: nat, ls: nat) -> Result<
    (u8, nat),
    SpecScanError,
> {
    let q = hws_end(src, p);
    let e = alnum_end(src, q);
    if e == q + 1 && is_digit_byte(src[q as int]) {
        let d = (src[q as int] - 48) as u8;
        if d <= 7 {
            Ok((d, e))
        } else {
            Err(SpecScanError::OutOfRangeRestartVector {
                line: line as int,
                column: q - ls,
                digit: d,
            })
        }
    } else {
        Err(SpecScanError::MalformedNumericOperand {
            line: line as int,
            column: q - ls,
            text: src.subrange(q as int, e as int),
        })
    }
}

/// Parses one whole instruction whose mnemonic starts at `pos`: the maximal
/// alphabetic run is the mnemonic, the catalog gives its operand shape, the
/// operands are resolved accordingly, and the rest of the line must be blank.
/// Returns the opcode and the end of the instruction text.
pub open spec fn parse_instr(src: Seq<u8>, pos: nat, line: nat, ls: nat) -> Result<
    (Opcode, nat),
    SpecScanError,
> {
    let mend = alpha_end(src, pos);
    let m = src.subrange(pos as int, mend as int);
    let unknown = SpecScanError::UnknownInstruction {
        line: line as int,
        column: pos - ls,
        mnemonic: m,
    };
    match shape_of(m) {
        None => Err(unknown),
        Some(shape) => match shape {
            Shape::Zero => {
                if line_blank_from(src, mend) {
                    match zero_opcode(m) {
                        Some(op) => Ok((op, mend)),
                        None => Err(unknown),
                    }
                } else {
                    Err(tail_err(src, mend, m, line, ls))
                }
            },
            Shape::Reg => {
                match parse_reg_at(src, mend, line, ls, m) {
                    Err(e) => Err(e),
                    Ok((r, e1)) => {
                        if line_blank_from(src, e1) {
                            match reg_opcode(m, r) {
                                Some(op) => Ok((op, e1)),
                                None => Err(unknown),
                            }
                        } else {
                            Err(tail_err(src, e1, m, line, ls))
                        }
                    },
                }
            },
            Shape::Pair => {
                match parse_pair_at(src, mend, line, ls, m) {
                    Err(e) => Err(e),
                    Ok((rp, e1)) => {
                        if line_blank_from(src, e1) {
                            match pair_opcode(m, rp) {
                                Some(op) => Ok((op, e1)),
                                None => Err(unknown),
                            }
                        } else {
                            Err(tail_err(src, e1, m, line, ls))
                        }
                    },
                }
            },
            Shape::Addr => {
                match parse_num_at(src, mend, 4, line, ls) {
                    Err(e) => Err(e),
                    Ok((v, e1)) => {
                        if line_blank_from(src, e1) {
                            match addr_opcode(m, v as u16) {
                                Some(op) => Ok((op, e1)),
                                None => Err(unknown),
                            }
                        } else {
                            Err(tail_err(src, e1, m, line, ls))
                        }
                    },
                }
            },
            Shape::RegImm => {
                match parse_reg_at(src, mend, line, ls, m) {
                    Err(e) => Err(e),
                    Ok((r, e1)) => match parse_comma_at(src, e1, line, ls, m) {
                        Err(e) => Err(e),
                        Ok(e2) => match parse_num_at(src, e2, 2, line, ls) {
                            Err(e) => Err(e),
                            Ok((v, e3)) => {
                                if line_blank_from(src, e3) {
                                    Ok((Opcode::Mvi(r, v as u8), e3))
                                } else {
                                    Err(tail_err(src, e3, m, line, ls))
                                }
                            },
                        },
                    },
                }
            },
            Shape::RegReg => {
                match parse_reg_at(src, mend, line, ls, m) {
                    Err(e) => Err(e),
                    Ok((r1, e1)) => match parse_comma_at(src, e1, line, ls, m) {
                        Err(e) => Err(e),
                        Ok(e2) => match parse_reg_at(src, e2, line, ls, m) {
                            Err(e) => Err(e),
                            Ok((r2, e3)) => {
                                if line_blank_from(src, e3) {
                                    Ok((Opcode::Mov(r1, r2), e3))
                                } else {
                                    Err(tail_err(src, e3, m, line, ls))
                                }
                            },
                        },
                    },
                }
            },
            Shape::PairImm => {
                match parse_pair_at(src, mend, line, ls, m) {
                    Err(e) => Err(e),
                    Ok((rp, e1)) => match parse_comma_at(src, e1, line, ls, m) {
                        Err(e) => Err(e),
                        Ok(e2) => match parse_num_at(src, e2, 4, line, ls) {
                            Err(e) => Err(e),
                            Ok((v, e3)) => {
                                if line_blank_from(src, e3) {
                                    Ok((Opcode::Lxi(rp, v as u16), e3))
                                } else {
                                    Err(tail_err(src, e3, m, line, ls))
                                }
                            },
                        },
                    },
                }
            },
            Shape::Rst => {
                match parse_rst_at(src, mend, line, ls) {
                    Err(e) => Err(e),
                    Ok((d, e1)) => {
                        if line_blank_from(src, e1) {
                            Ok((Opcode::Rst(d), e1))
                        } else {
                            Err(tail_err(src, e1, m, line, ls))
                        }
                    },
                }
            },
        },
    }
}

/// On a successful parse the instruction text is non-empty and lies inside
/// the source.
pub proof fn lemma_parse_instr_bounds(src: Seq<u8>, pos: nat, line: nat, ls: nat)
    requires
        pos < src.len(),
        is_alpha(src[pos as int]),
    ensures
        parse_instr(src, pos, line, ls) matches Ok(r) ==> pos < r.1 <= src.len(),
{
    let mend = alpha_end(src, pos);
    lemma_alpha_end_props(src, pos);
    assert(pos < mend <= src.len());
    // operand runs at any position from the mnemonic end on
    assert forall|p2: nat, m: Seq<u8>|
        mend <= p2 <= src.len() && parse_reg_at(src, p2, line, ls, m) is Ok implies p2
        < parse_reg_at(src, p2, line, ls, m)->Ok_0.1 <= src.len() by {
        lemma_hws_end_props(src, p2);
    }
    assert forall|p2: nat, m: Seq<u8>|
        mend <= p2 <= src.len() && parse_pair_at(src, p2, line, ls, m) is Ok implies p2
        < parse_pair_at(src, p2, line, ls, m)->Ok_0.1 <= src.len() by {
        lemma_hws_end_props(src, p2);
        let q = hws_end(src, p2);
        lemma_alpha_end_props(src, q);
        let e = alpha_end(src, q);
        let t = src.subrange(q as int, e as int);
        if pair_of_text(t) is Some {
            assert(t.len() >= 1);
        }
    }
    assert forall|p2: nat, w: nat|
        mend <= p2 <= src.len() && w >= 1 && parse_num_at(src, p2, w, line, ls) is Ok implies p2
        < parse_num_at(src, p2, w, line, ls)->Ok_0.1 <= src.len() by {
        lemma_hws_end_props(src, p2);
        lemma_alnum_end_props(src, hws_end(src, p2));
    }
    assert forall|p2: nat, m: Seq<u8>|
        mend <= p2 <= src.len() && parse_comma_at(src, p2, line, ls, m) is Ok implies p2
        < parse_comma_at(src, p2, line, ls, m)->Ok_0 <= src.len() by {
        lemma_hws_end_props(src, p2);
    }
    if parse_rst_at(src, mend, line, ls) is Ok {
        lemma_hws_end_props(src, mend);
        lemma_alnum_end_props(src, hws_end(src, mend));
        assert(mend < parse_rst_at(src, mend, line, ls)->Ok_0.1 <= src.len());
    }
}

/// The token that terminates every successful scan.
pub open spec fn eof_token(line: nat) -> SpecToken {
    SpecToken { opcode: Opcode::Eof, lexeme: Seq::empty(), line: line as int, column: 0 }
}

/// The full scan from a cursor state: skip blanks, then either emit the
/// end-of-input token, fail on a byte that can start no instruction, or parse
/// one instruction and continue after it.
pub open spec fn scan_from(src: Seq<u8>, pos: nat, line: nat, line_start: nat) -> Result<
    Seq<SpecToken>,
    SpecScanError,
>
    decreases src.len() - pos,
    via scan_from_decreases
{
    let sp = skip_blanks(src, pos, line, line_start);
    if sp.pos >= src.len() {
        Ok(seq![eof_token(sp.line)])
    } else if !is_alpha(src[sp.pos as int]) {
        Err(SpecScanError::UnexpectedCharacter {
            line: sp.line as int,
            column: sp.pos - sp.line_start,
            found: src[sp.pos as int],
        })
    } else {
        match parse_instr(src, sp.pos, sp.line, sp.line_start) {
            Err(e) => Err(e),
            Ok((op, end)) => match scan_from(src, end, sp.line, sp.line_start) {
                Ok(rest) => Ok(
                    seq![
                        SpecToken {
                            opcode: op,
                            lexeme: src.subrange(sp.pos as int, end as int),
                            line: sp.line as int,
                            column: sp.pos - sp.line_start,
                        },
                    ] + rest,
                ),
                Err(e) => Err(e),
            },
        }
    }
}

#[via_fn]
proof fn scan_from_decreases(src: Seq<u8>, pos: nat, line: nat, line_start: nat) {
    lemma_skip_blanks_props(src, pos, line, line_start);
    let sp = skip_blanks(src, pos, line, line_start);
    if sp.pos < src.len() && is_alpha(src[sp.pos as int]) {
        lemma_parse_instr_bounds(src, sp.pos, sp.line, sp.line_start);
    }
}

/// What scanning a whole source buffer produces: the complete token sequence,
/// always ending in exactly one end-of-input token, or the first fatal error.
pub open spec fn scan_spec(src: Seq<u8>) -> Result<Seq<SpecToken>, SpecScanError> {
    scan_from(src, 0, 1, 0)
}

} // verus!
