//! The executable scanner: a transient cursor over one source buffer that
//! produces the token sequence `scan_spec` describes.

use vstd::prelude::*;
use crate::token::Opcode;
use crate::token::Register;
use crate::token::ScanError;
use crate::token::SpecScanError;
use crate::token::SpecToken;
use crate::token::Token;
use crate::catalog::Shape;
use crate::catalog::lookup_shape;
use crate::catalog::build_zero;
use crate::catalog::build_reg;
use crate::catalog::build_pair;
use crate::catalog::build_addr;
use crate::catalog::resolve_reg;
use crate::catalog::resolve_pair;
use crate::model::is_hws;
use crate::model::is_line_break;
use crate::model::is_blank;
use crate::model::is_alpha;
use crate::model::is_alnum;
use crate::model::is_hex_digit;
use crate::model::hex_val;
use crate::model::hex_digit_val;
use crate::model::all_hex;
use crate::model::pow16;
use crate::model::hws_end;
use crate::model::alpha_end;
use crate::model::alnum_end;
use crate::model::line_end;
use crate::model::skip_blanks;
use crate::model::ScanPos;
use crate::model::line_blank_from;
use crate::model::tail_err;
use crate::model::parse_reg_at;
use crate::model::parse_pair_at;
use crate::model::parse_comma_at;
use crate::model::parse_num_at;
use crate::model::parse_rst_at;
use crate::model::parse_instr;
use crate::model::eof_token;
use crate::model::scan_from;
use crate::model::scan_spec;

verus! {

/// The specification-level image of a token list.
pub open spec fn tokens_view(ts: Seq<Token>) -> Seq<SpecToken> {
    ts.map(|i: int, t: Token| t@)
}

/// Copies the byte range `i..j` of `v` into a fresh vector.
fn copy_range(v: &Vec<u8>, i: usize, j: usize) -> (r: Vec<u8>)
    requires
        i <= j <= v@.len(),
    ensures
        r@ == v@.subrange(i as int, j as int),
{
    let mut r: Vec<u8> = Vec::new();
    let mut k: usize = i;
    while k < j
        invariant
            i <= k <= j <= v@.len(),
            r@ == v@.subrange(i as int, k as int),
        decreases j - k,
    {
        r.push(v[k]);
        k = k + 1;
        proof {
            assert(r@ =~= v@.subrange(i as int, k as int));
        }
    }
    r
}

/// Copies a whole byte vector.
fn dup(v: &Vec<u8>) -> (r: Vec<u8>)
    ensures
        r@ == v@,
{
    let r = copy_range(v, 0, v.len());
    proof {
        assert(v@.subrange(0, v@.len() as int) =~= v@);
    }
    r
}

/// A transient state machine over one immutable source buffer: the cursor,
/// the start of the token being scanned, the current line, and where that
/// line begins. Created once per source text.
#[derive(Debug)]
pub struct Scanner {
    pub tokens: Vec<Token>,
    pub current: usize,
    pub start: usize,
    pub source: Vec<u8>,
    pub line: usize,
    pub line_start: usize,
}

impl Scanner {
    /// The cursor and line bookkeeping stay inside the buffer.
    pub open spec fn wf(self) -> bool {
        &&& self.source@.len() < usize::MAX
        &&& self.current <= self.source@.len()
        &&& self.line_start <= self.current
        &&& 1 <= self.line
        &&& self.line <= self.current + 1
    }

    /// Creates a scanner at the start of `source`: line 1, nothing scanned.
    pub fn new(source: Vec<u8>) -> (s: Scanner)
        requires
            source@.len() < usize::MAX,
        ensures
            s.wf(),
            s.source@ == source@,
            s.tokens@.len() == 0,
            s.current == 0,
            s.start == 0,
            s.line == 1,
            s.line_start == 0,
    {
        Scanner { tokens: Vec::new(), current: 0, start: 0, source, line: 1, line_start: 0 }
    }

    /// The cursor has consumed the whole buffer.
    pub fn is_at_end(&self) -> (r: bool)
        ensures
            r == (self.current >= self.source@.len()),
    {
        self.current >= self.source.len()
    }

    /// The byte under the cursor, or 0 at the end of input.
    pub fn peek(&self) -> (r: u8)
        ensures
            r == (if self.current < self.source@.len() {
                self.source@[self.current as int]
            } else {
                0u8
            }),
    {
        if self.current < self.source.len() {
            self.source[self.current]
        } else {
            0
        }
    }

    /// The byte after the cursor, or 0 if fewer than two bytes remain.
    pub fn peek_next(&self) -> (r: u8)
        requires
            self.wf(),
        ensures
            r == (if self.current + 1 < self.source@.len() {
                self.source@[self.current + 1]
            } else {
                0u8
            }),
    {
        if self.current < self.source.len() && self.source.len() - self.current >= 2 {
            self.source[self.current + 1]
        } else {
            0
        }
    }

    /// Consumes and returns the byte under the cursor.
    pub fn advance(&mut self) -> (r: u8)
        requires
            old(self).wf(),
            old(self).current < old(self).source@.len(),
        ensures
            final(self).wf(),
            r == old(self).source@[old(self).current as int],
            final(self).current == old(self).current + 1,
            final(self).source@ == old(self).source@,
            final(self).tokens@ == old(self).tokens@,
            final(self).start == old(self).start,
            final(self).line == old(self).line,
            final(self).line_start == old(self).line_start,
    {
        let c = self.source[self.current];
        self.current = self.current + 1;
        c
    }

    /// Skips whitespace and line terminators before the next token; each
    /// terminator increments the line counter and starts a new line.
    pub fn consume_whitespace(&mut self)
        requires
            old(self).wf(),
        ensures
            final(self).wf(),
            final(self).source@ == old(self).source@,
            final(self).tokens@ == old(self).tokens@,
            final(self).start == old(self).start,
            (ScanPos {
                pos: final(self).current as nat,
                line: final(self).line as nat,
                line_start: final(self).line_start as nat,
            }) == skip_blanks(
                old(self).source@,
                old(self).current as nat,
                old(self).line as nat,
                old(self).line_start as nat,
            ),
            old(self).current <= final(self).current,
    {
        loop
            invariant
                self.wf(),
                self.source@ == old(self).source@,
                self.tokens@ == old(self).tokens@,
                self.start == old(self).start,
                old(self).current <= self.current,
                skip_blanks(
                    self.source@,
                    self.current as nat,
                    self.line as nat,
                    self.line_start as nat,
                ) == skip_blanks(
                    old(self).source@,
                    old(self).current as nat,
                    old(self).line as nat,
                    old(self).line_start as nat,
                ),
            ensures
                self.current >= self.source@.len() || !is_blank(
                    self.source@[self.current as int],
                ),
            decreases self.source@.len() - self.current,
        {
            if self.current >= self.source.len() {
                break;
            }
            let b = self.peek();
            if b == 10 {
                self.current = self.current + 1;
                self.line = self.line + 1;
                self.line_start = self.current;
            } else if b == 32 || b == 9 || b == 13 {
                self.current = self.current + 1;
            } else {
                break;
            }
        }
    }

    /// Skips horizontal whitespace inside an instruction line.
    fn skip_hws(&mut self)
        requires
            old(self).wf(),
        ensures
            final(self).wf(),
            final(self).source@ == old(self).source@,
            final(self).tokens@ == old(self).tokens@,
            final(self).start == old(self).start,
            final(self).line == old(self).line,
            final(self).line_start == old(self).line_start,
            final(self).current as nat == hws_end(old(self).source@, old(self).current as nat),
            old(self).current <= final(self).current,
    {
        loop
            invariant
                self.wf(),
                self.source@ == old(self).source@,
                self.tokens@ == old(self).tokens@,
                self.start == old(self).start,
                self.line == old(self).line,
                self.line_start == old(self).line_start,
                old(self).current <= self.current,
                hws_end(self.source@, self.current as nat) == hws_end(
                    old(self).source@,
                    old(self).current as nat,
                ),
            ensures
                self.current >= self.source@.len() || !is_hws(
                    self.source@[self.current as int],
                ),
            decreases self.source@.len() - self.current,
        {
            if self.current >= self.source.len() {
                break;
            }
            let b = self.peek();
            if b == 32 || b == 9 || b == 13 {
                self.current = self.current + 1;
            } else {
                break;
            }
        }
    }

    /// Consumes the maximal run of alphabetic bytes at the cursor.
    fn read_alpha_run(&mut self)
        requires
            old(self).wf(),
        ensures
            final(self).wf(),
            final(self).source@ == old(self).source@,
            final(self).tokens@ == old(self).tokens@,
            final(self).start == old(self).start,
            final(self).line == old(self).line,
            final(self).line_start == old(self).line_start,
            final(self).current as nat == alpha_end(old(self).source@, old(self).current as nat),
            old(self).current <= final(self).current,
    {
        loop
            invariant
                self.wf(),
                self.source@ == old(self).source@,
                self.tokens@ == old(self).tokens@,
                self.start == old(self).start,
                self.line == old(self).line,
                self.line_start == old(self).line_start,
                old(self).current <= self.current,
                alpha_end(self.source@, self.current as nat) == alpha_end(
                    old(self).source@,
                    old(self).current as nat,
                ),
            ensures
                self.current >= self.source@.len() || !is_alpha(
                    self.source@[self.current as int],
                ),
            decreases self.source@.len() - self.current,
        {
            if self.current >= self.source.len() {
                break;
            }
            let b = self.peek();
            if (65 <= b && b <= 90) || (97 <= b && b <= 122) {
                self.current = self.current + 1;
            } else {
                break;
            }
        }
    }

    /// Consumes the maximal run of alphanumeric bytes at the cursor.
    fn read_alnum_run(&mut self)
        requires
            old(self).wf(),
        ensures
            final(self).wf(),
            final(self).source@ == old(self).source@,
            final(self).tokens@ == old(self).tokens@,
            final(self).start == old(self).start,
            final(self).line == old(self).line,
            final(self).line_start == old(self).line_start,
            final(self).current as nat == alnum_end(old(self).source@, old(self).current as nat),
            old(self).current <= final(self).current,
    {
        loop
            invariant
                self.wf(),
                self.source@ == old(self).source@,
                self.tokens@ == old(self).tokens@,
                self.start == old(self).start,
                self.line == old(self).line,
                self.line_start == old(self).line_start,
                old(self).current <= self.current,
                alnum_end(self.source@, self.current as nat) == alnum_end(
                    old(self).source@,
                    old(self).current as nat,
                ),
            ensures
                self.current >= self.source@.len() || !is_alnum(
                    self.source@[self.current as int],
                ),
            decreases self.source@.len() - self.current,
        {
            if self.current >= self.source.len() {
                break;
            }
            let b = self.peek();
            if (65 <= b && b <= 90) || (97 <= b && b <= 122) || (48 <= b && b <= 57) {
                self.current = self.current + 1;
            } else {
                break;
            }
        }
    }

    /// The end of the horizontal-whitespace run starting at `from`, without
    /// moving the cursor.
    fn find_hws_end(&self, from: usize) -> (r: usize)
        requires
            from <= self.source@.len(),
        ensures
            r as nat == hws_end(self.source@, from as nat),
    {
        let mut k: usize = from;
        loop
            invariant
                k <= self.source@.len(),
                hws_end(self.source@, k as nat) == hws_end(self.source@, from as nat),
            ensures
                k >= self.source@.len() || !is_hws(self.source@[k as int]),
            decreases self.source@.len() - k,
        {
            if k >= self.source.len() {
                break;
            }
            let b = self.source[k];
            if b == 32 || b == 9 || b == 13 {
                k = k + 1;
            } else {
                break;
            }
        }
        k
    }

    /// The position of the next line terminator at or after `from`, or the
    /// end of input, without moving the cursor.
    fn find_line_end(&self, from: usize) -> (r: usize)
        requires
            from <= self.source@.len(),
        ensures
            r as nat == line_end(self.source@, from as nat),
    {
        let mut k: usize = from;
        loop
            invariant
                k <= self.source@.len(),
                line_end(self.source@, k as nat) == line_end(self.source@, from as nat),
            ensures
                k >= self.source@.len() || is_line_break(self.source@[k as int]),
            decreases self.source@.len() - k,
        {
            if k >= self.source.len() {
                break;
            }
            let b = self.source[k];
            if b != 10 {
                k = k + 1;
            } else {
                break;
            }
        }
        k
    }

    /// Whether only horizontal whitespace stands between the cursor and the
    /// next line terminator or the end of input.
    fn rest_blank(&self) -> (r: bool)
        requires
            self.current <= self.source@.len(),
        ensures
            r == line_blank_from(self.source@, self.current as nat),
    {
        let q = self.find_hws_end(self.current);
        q >= self.source.len() || self.source[q] == 10
    }

    /// The error for a mnemonic that is not in the catalog, at the start of
    /// the token under scan.
    fn unknown_error(&self, m: &Vec<u8>) -> (e: ScanError)
        requires
            self.line_start <= self.start,
        ensures
            e@ == (SpecScanError::UnknownInstruction {
                line: self.line as int,
                column: self.start - self.line_start,
                mnemonic: m@,
            }),
    {
        ScanError::UnknownInstruction {
            line: self.line,
            column: self.start - self.line_start,
            mnemonic: dup(m),
        }
    }

    /// The error for trailing text after a complete instruction.
    fn tail_error(&self, m: &Vec<u8>) -> (e: ScanError)
        requires
            self.wf(),
        ensures
            e@ == tail_err(
                self.source@,
                self.current as nat,
                m@,
                self.line as nat,
                self.line_start as nat,
            ),
    {
        let hq = self.find_hws_end(self.current);
        proof {
            crate::model::lemma_hws_end_props(self.source@, self.current as nat);
        }
        let le = self.find_line_end(hq);
        proof {
            crate::model::lemma_line_end_props(self.source@, hq as nat);
        }
        ScanError::InvalidOperandShape {
            line: self.line,
            column: hq - self.line_start,
            mnemonic: dup(m),
            got: copy_range(&self.source, hq, le),
        }
    }

    /// Reads a single-register operand, as `parse_reg_at` describes.
    fn read_reg(&mut self, m: &Vec<u8>) -> (r: Result<Register, ScanError>)
        requires
            old(self).wf(),
        ensures
            final(self).wf(),
            final(self).source@ == old(self).source@,
            final(self).tokens@ == old(self).tokens@,
            final(self).start == old(self).start,
            final(self).line == old(self).line,
            final(self).line_start == old(self).line_start,
            old(self).current <= final(self).current,
            ({
                let s = parse_reg_at(
                    old(self).source@,
                    old(self).current as nat,
                    old(self).line as nat,
                    old(self).line_start as nat,
                    m@,
                );
                match r {
                    Ok(reg) => s is Ok && reg == s->Ok_0.0 && final(self).current as nat
                        == s->Ok_0.1,
                    Err(e) => s is Err && e@ == s->Err_0,
                }
            }),
    {
        self.skip_hws();
        let q = self.current;
        if self.current >= self.source.len() || self.peek() == 10 {
            return Err(ScanError::InvalidOperandShape {
                line: self.line,
                column: q - self.line_start,
                mnemonic: dup(m),
                got: Vec::new(),
            });
        }
        let b = self.peek();
        if !((65 <= b && b <= 90) || (97 <= b && b <= 122)) {
            return Err(ScanError::MalformedRegister {
                line: self.line,
                column: q - self.line_start,
                found: b,
            });
        }
        self.current = self.current + 1;
        if self.current < self.source.len() {
            let b2 = self.peek();
            if (65 <= b2 && b2 <= 90) || (97 <= b2 && b2 <= 122) {
                proof {
                    crate::model::lemma_alpha_end_props(self.source@, q as nat + 2);
                }
                self.read_alpha_run();
                let got = copy_range(&self.source, q, self.current);
                return Err(ScanError::InvalidOperandShape {
                    line: self.line,
                    column: q - self.line_start,
                    mnemonic: dup(m),
                    got,
                });
            }
        }
        proof {
            reveal_with_fuel(alpha_end, 3);
        }
        match resolve_reg(b) {
            Some(reg) => Ok(reg),
            None => Err(ScanError::MalformedRegister {
                line: self.line,
                column: q - self.line_start,
                found: b,
            }),
        }
    }

    /// Reads a register-pair operand, as `parse_pair_at` describes.
    fn read_pair(&mut self, m: &Vec<u8>) -> (r: Result<crate::token::RegisterPair, ScanError>)
        requires
            old(self).wf(),
        ensures
            final(self).wf(),
            final(self).source@ == old(self).source@,
            final(self).tokens@ == old(self).tokens@,
            final(self).start == old(self).start,
            final(self).line == old(self).line,
            final(self).line_start == old(self).line_start,
            old(self).current <= final(self).current,
            ({
                let s = parse_pair_at(
                    old(self).source@,
                    old(self).current as nat,
                    old(self).line as nat,
                    old(self).line_start as nat,
                    m@,
                );
                match r {
                    Ok(rp) => s is Ok && rp == s->Ok_0.0 && final(self).current as nat
                        == s->Ok_0.1,
                    Err(e) => s is Err && e@ == s->Err_0,
                }
            }),
    {
        self.skip_hws();
        let q = self.current;
        self.read_alpha_run();
        let t = copy_range(&self.source, q, self.current);
        match resolve_pair(&t) {
            Some(rp) => Ok(rp),
            None => Err(ScanError::InvalidOperandShape {
                line: self.line,
                column: q - self.line_start,
                mnemonic: dup(m),
                got: t,
            }),
        }
    }

    /// Consumes the comma between two operands, as `parse_comma_at` describes.
    fn read_comma(&mut self, m: &Vec<u8>) -> (r: Result<(), ScanError>)
        requires
            old(self).wf(),
        ensures
            final(self).wf(),
            final(self).source@ == old(self).source@,
            final(self).tokens@ == old(self).tokens@,
            final(self).start == old(self).start,
            final(self).line == old(self).line,
            final(self).line_start == old(self).line_start,
            old(self).current <= final(self).current,
            ({
                let s = parse_comma_at(
                    old(self).source@,
                    old(self).current as nat,
                    old(self).line as nat,
                    old(self).line_start as nat,
                    m@,
                );
                match r {
                    Ok(_) => s is Ok && final(self).current as nat == s->Ok_0,
                    Err(e) => s is Err && e@ == s->Err_0,
                }
            }),
    {
        self.skip_hws();
        let q = self.current;
        if self.current < self.source.len() && self.peek() == 44 {
            self.current = self.current + 1;
            Ok(())
        } else {
            let le = self.find_line_end(q);
            proof {
                crate::model::lemma_line_end_props(self.source@, q as nat);
            }
            Err(ScanError::InvalidOperandShape {
                line: self.line,
                column: q - self.line_start,
                mnemonic: dup(m),
                got: copy_range(&self.source, q, le),
            })
        }
    }

    /// Reads a numeric operand of exactly `w` hexadecimal digits, as
    /// `parse_num_at` describes.
    fn read_num(&mut self, w: usize) -> (r: Result<u16, ScanError>)
        requires
            old(self).wf(),
            w == 2 || w == 4,
        ensures
            final(self).wf(),
            final(self).source@ == old(self).source@,
            final(self).tokens@ == old(self).tokens@,
            final(self).start == old(self).start,
            final(self).line == old(self).line,
            final(self).line_start == old(self).line_start,
            old(self).current <= final(self).current,
            ({
                let s = parse_num_at(
                    old(self).source@,
                    old(self).current as nat,
                    w as nat,
                    old(self).line as nat,
                    old(self).line_start as nat,
                );
                match r {
                    Ok(v) => s is Ok && v as int == s->Ok_0.0 && final(self).current as nat
                        == s->Ok_0.1 && (v as int) < pow16(w as int),
                    Err(e) => s is Err && e@ == s->Err_0,
                }
            }),
    {
        self.skip_hws();
        let q = self.current;
        self.read_alnum_run();
        let e = self.current;
        let t = copy_range(&self.source, q, e);
        if t.len() != w {
            return Err(ScanError::MalformedNumericOperand {
                line: self.line,
                column: q - self.line_start,
                text: t,
            });
        }
        proof {
            assert(pow16(0) == 1);
            assert(pow16(1) == 16);
            assert(pow16(2) == 256);
            assert(pow16(3) == 4096);
            assert(pow16(4) == 65536);
        }
        let mut v: u16 = 0;
        let mut i: usize = 0;
        while i < w
            invariant
                i <= w,
                w == 2 || w == 4,
                t@.len() == w,
                t@ == old(self).source@.subrange(q as int, e as int),
                all_hex(t@.subrange(0, i as int)),
                v as int == hex_val(t@.subrange(0, i as int)),
                (v as int) < pow16(i as int),
                pow16(0) == 1 && pow16(1) == 16 && pow16(2) == 256 && pow16(3) == 4096
                    && pow16(4) == 65536,
                self.wf(),
                self.source@ == old(self).source@,
                self.tokens@ == old(self).tokens@,
                self.start == old(self).start,
                self.line == old(self).line,
                self.line_start == old(self).line_start,
                old(self).current <= self.current,
                self.current == e,
                q <= e <= self.source@.len(),
                self.line_start <= q,
                e as nat == alnum_end(self.source@, hws_end(self.source@, old(self).current as nat)),
                q as nat == hws_end(self.source@, old(self).current as nat),
            decreases w - i,
        {
            let b = t[i];
            let d: u16;
            if 48 <= b && b <= 57 {
                d = (b - 48) as u16;
            } else if 65 <= b && b <= 70 {
                d = (b - 55) as u16;
            } else if 97 <= b && b <= 102 {
                d = (b - 87) as u16;
            } else {
                return Err(ScanError::MalformedNumericOperand {
                    line: self.line,
                    column: q - self.line_start,
                    text: t,
                });
            }
            proof {
                let pre = t@.subrange(0, i as int);
                let post = t@.subrange(0, i + 1);
                assert(post.drop_last() =~= pre);
                assert(post.last() == t@[i as int]);
                assert(is_hex_digit(t@[i as int]));
                assert(hex_digit_val(t@[i as int]) == d as int);
            }
            v = v * 16 + d;
            i = i + 1;
        }
        proof {
            assert(t@.subrange(0, w as int) =~= t@);
        }
        Ok(v)
    }

    /// Reads the `RST` restart-vector operand, as `parse_rst_at` describes.
    fn read_rst(&mut self) -> (r: Result<u8, ScanError>)
        requires
            old(self).wf(),
        ensures
            final(self).wf(),
            final(self).source@ == old(self).source@,
            final(self).tokens@ == old(self).tokens@,
            final(self).start == old(self).start,
            final(self).line == old(self).line,
            final(self).line_start == old(self).line_start,
            old(self).current <= final(self).current,
            ({
                let s = parse_rst_at(
                    old(self).source@,
                    old(self).current as nat,
                    old(self).line as nat,
                    old(self).line_start as nat,
                );
                match r {
                    Ok(d) => s is Ok && d == s->Ok_0.0 && final(self).current as nat
                        == s->Ok_0.1,
                    Err(e) => s is Err && e@ == s->Err_0,
                }
            }),
    {
        self.skip_hws();
        let q = self.current;
        self.read_alnum_run();
        let e = self.current;
        if e - q == 1 {
            let b = self.source[q];
            if 48 <= b && b <= 57 {
                let d = b - 48;
                if d <= 7 {
                    return Ok(d);
                }
                return Err(ScanError::OutOfRangeRestartVector {
                    line: self.line,
                    column: q - self.line_start,
                    digit: d,
                });
            }
        }
        Err(ScanError::MalformedNumericOperand {
            line: self.line,
            column: q - self.line_start,
            text: copy_range(&self.source, q, e),
        })
    }

    /// Emits a token spanning `start..current`, at the line and column where
    /// the token began.
    pub fn add_token(&mut self, opcode: Opcode)
        requires
            old(self).wf(),
            old(self).line_start <= old(self).start <= old(self).current,
        ensures
            final(self).wf(),
            final(self).source@ == old(self).source@,
            final(self).current == old(self).current,
            final(self).start == old(self).start,
            final(self).line == old(self).line,
            final(self).line_start == old(self).line_start,
            tokens_view(final(self).tokens@) == tokens_view(old(self).tokens@).push(
                (SpecToken {
                    opcode,
                    lexeme: old(self).source@.subrange(
                        old(self).start as int,
                        old(self).current as int,
                    ),
                    line: old(self).line as int,
                    column: old(self).start - old(self).line_start,
                }),
            ),
    {
        let lexeme = copy_range(&self.source, self.start, self.current);
        let t = Token {
            opcode,
            lexeme,
            line: self.line,
            column: self.start - self.line_start,
        };
        self.tokens.push(t);
        proof {
            assert(tokens_view(self.tokens@) =~= tokens_view(old(self).tokens@).push(
                SpecToken {
                    opcode,
                    lexeme: old(self).source@.subrange(
                        old(self).start as int,
                        old(self).current as int,
                    ),
                    line: old(self).line as int,
                    column: old(self).start - old(self).line_start,
                },
            ));
        }
    }

    /// Scans one whole instruction starting at the cursor (which must stand
    /// on an alphabetic byte) and emits its token, exactly as `parse_instr`
    /// describes; on failure the token list is unchanged.
    pub fn scan_token(&mut self) -> (r: Result<(), ScanError>)
        requires
            old(self).wf(),
            old(self).current < old(self).source@.len(),
            is_alpha(old(self).source@[old(self).current as int]),
        ensures
            final(self).wf(),
            final(self).source@ == old(self).source@,
            final(self).line == old(self).line,
            final(self).line_start == old(self).line_start,
            old(self).current <= final(self).current,
            ({
                let s = parse_instr(
                    old(self).source@,
                    old(self).current as nat,
                    old(self).line as nat,
                    old(self).line_start as nat,
                );
                match r {
                    Ok(_) => s is Ok && final(self).current as nat == s->Ok_0.1 && tokens_view(
                        final(self).tokens@,
                    ) == tokens_view(old(self).tokens@).push(
                        (SpecToken {
                            opcode: s->Ok_0.0,
                            lexeme: old(self).source@.subrange(
                                old(self).current as int,
                                s->Ok_0.1 as int,
                            ),
                            line: old(self).line as int,
                            column: old(self).current - old(self).line_start,
                        }),
                    ),
                    Err(e) => s is Err && e@ == s->Err_0 && final(self).tokens@ == old(
                        self,
                    ).tokens@,
                }
            }),
    {
        self.start = self.current;
        self.read_alpha_run();
        let m = copy_range(&self.source, self.start, self.current);
        match lookup_shape(&m) {
            None => Err(self.unknown_error(&m)),
            Some(Shape::Zero) => {
                if self.rest_blank() {
                    match build_zero(&m) {
                        Some(op) => {
                            self.add_token(op);
                            Ok(())
                        },
                        None => Err(self.unknown_error(&m)),
                    }
                } else {
                    Err(self.tail_error(&m))
                }
            },
            Some(Shape::Reg) => {
                match self.read_reg(&m) {
                    Err(e) => Err(e),
                    Ok(r1) => {
                        if self.rest_blank() {
                            match build_reg(&m, r1) {
                                Some(op) => {
                                    self.add_token(op);
                                    Ok(())
                                },
                                None => Err(self.unknown_error(&m)),
                            }
                        } else {
                            Err(self.tail_error(&m))
                        }
                    },
                }
            },
            Some(Shape::Pair) => {
                match self.read_pair(&m) {
                    Err(e) => Err(e),
                    Ok(p1) => {
                        if self.rest_blank() {
                            match build_pair(&m, p1) {
                                Some(op) => {
                                    self.add_token(op);
                                    Ok(())
                                },
                                None => Err(self.unknown_error(&m)),
                            }
                        } else {
                            Err(self.tail_error(&m))
                        }
                    },
                }
            },
            Some(Shape::Addr) => {
                match self.read_num(4) {
                    Err(e) => Err(e),
                    Ok(v) => {
                        if self.rest_blank() {
                            match build_addr(&m, v) {
                                Some(op) => {
                                    self.add_token(op);
                                    Ok(())
                                },
                                None => Err(self.unknown_error(&m)),
                            }
                        } else {
                            Err(self.tail_error(&m))
                        }
                    },
                }
            },
            Some(Shape::RegImm) => {
                match self.read_reg(&m) {
                    Err(e) => Err(e),
                    Ok(r1) => match self.read_comma(&m) {
                        Err(e) => Err(e),
                        Ok(_) => match self.read_num(2) {
                            Err(e) => Err(e),
                            Ok(v) => {
                                if self.rest_blank() {
                                    proof {
                                        assert(pow16(0) == 1);
                                        assert(pow16(1) == 16);
                                        assert(pow16(2) == 256);
                                    }
                                    let imm: u8 = (v % 256) as u8;
                                    self.add_token(Opcode::Mvi(r1, imm));
                                    Ok(())
                                } else {
                                    Err(self.tail_error(&m))
                                }
                            },
                        },
                    },
                }
            },
            Some(Shape::RegReg) => {
                match self.read_reg(&m) {
                    Err(e) => Err(e),
                    Ok(r1) => match self.read_comma(&m) {
                        Err(e) => Err(e),
                        Ok(_) => match self.read_reg(&m) {
                            Err(e) => Err(e),
                            Ok(r2) => {
                                if self.rest_blank() {
                                    self.add_token(Opcode::Mov(r1, r2));
                                    Ok(())
                                } else {
                                    Err(self.tail_error(&m))
                                }
                            },
                        },
                    },
                }
            },
            Some(Shape::PairImm) => {
                match self.read_pair(&m) {
                    Err(e) => Err(e),
                    Ok(p1) => match self.read_comma(&m) {
                        Err(e) => Err(e),
                        Ok(_) => match self.read_num(4) {
                            Err(e) => Err(e),
                            Ok(v) => {
                                if self.rest_blank() {
                                    self.add_token(Opcode::Lxi(p1, v));
                                    Ok(())
                                } else {
                                    Err(self.tail_error(&m))
                                }
                            },
                        },
                    },
                }
            },
            Some(Shape::Rst) => {
                match self.read_rst() {
                    Err(e) => Err(e),
                    Ok(d) => {
                        if self.rest_blank() {
                            self.add_token(Opcode::Rst(d));
                            Ok(())
                        } else {
                            Err(self.tail_error(&m))
                        }
                    },
                }
            },
        }
    }

    /// Scans the whole buffer eagerly from the start and returns either the
    /// complete token list, always ending in exactly one end-of-input token,
    /// or the first fatal error, exactly as `scan_spec` describes.
    pub fn scan_tokens(&mut self) -> (r: Result<Vec<Token>, ScanError>)
        requires
            old(self).wf(),
            old(self).current == 0,
            old(self).line == 1,
            old(self).line_start == 0,
            old(self).tokens@.len() == 0,
        ensures
            ({
                let s = scan_spec(old(self).source@);
                match r {
                    Ok(ts) => s is Ok && tokens_view(ts@) == s->Ok_0,
                    Err(e) => s is Err && e@ == s->Err_0,
                }
            }),
    {
        proof {
            assert(tokens_view(self.tokens@) =~= Seq::<SpecToken>::empty());
            if scan_spec(self.source@) is Ok {
                assert(tokens_view(self.tokens@) + scan_spec(self.source@)->Ok_0 =~= scan_spec(
                    self.source@,
                )->Ok_0);
            }
        }
        loop
            invariant
                self.wf(),
                self.source@ == old(self).source@,
                ({
                    let cont = scan_from(
                        self.source@,
                        self.current as nat,
                        self.line as nat,
                        self.line_start as nat,
                    );
                    let s = scan_spec(self.source@);
                    match cont {
                        Ok(rest) => s is Ok && s->Ok_0 == tokens_view(self.tokens@) + rest,
                        Err(e2) => s is Err && s->Err_0 == e2,
                    }
                }),
            decreases self.source@.len() - self.current,
        {
            let ghost entry = *self;
            self.consume_whitespace();
            proof {
                crate::model::lemma_skip_blanks_props(
                    entry.source@,
                    entry.current as nat,
                    entry.line as nat,
                    entry.line_start as nat,
                );
            }
            if self.current >= self.source.len() {
                let ghost before_push = self.tokens@;
                let t = Token {
                    opcode: Opcode::Eof,
                    lexeme: Vec::new(),
                    line: self.line,
                    column: 0,
                };
                self.tokens.push(t);
                proof {
                    assert(t@ == eof_token(self.line as nat));
                    assert(tokens_view(self.tokens@) =~= tokens_view(before_push) + seq![
                        eof_token(self.line as nat),
                    ]);
                }
                let out = clone_tokens(&self.tokens);
                return Ok(out);
            }
            let b = self.peek();
            if !((65 <= b && b <= 90) || (97 <= b && b <= 122)) {
                return Err(ScanError::UnexpectedCharacter {
                    line: self.line,
                    column: self.current - self.line_start,
                    found: b,
                });
            }
            let ghost sp = *self;
            let res = self.scan_token();
            match res {
                Err(e) => {
                    return Err(e);
                },
                Ok(_) => {
                    proof {
                        let src = self.source@;
                        crate::model::lemma_parse_instr_bounds(
                            src,
                            sp.current as nat,
                            sp.line as nat,
                            sp.line_start as nat,
                        );
                        let pi = parse_instr(
                            src,
                            sp.current as nat,
                            sp.line as nat,
                            sp.line_start as nat,
                        );
                        let tok = SpecToken {
                            opcode: pi->Ok_0.0,
                            lexeme: src.subrange(sp.current as int, pi->Ok_0.1 as int),
                            line: sp.line as int,
                            column: sp.current - sp.line_start,
                        };
                        let cont1 = scan_from(
                            src,
                            self.current as nat,
                            self.line as nat,
                            self.line_start as nat,
                        );
                        if cont1 is Ok {
                            assert(tokens_view(sp.tokens@) + (seq![tok] + cont1->Ok_0) =~= (
                            tokens_view(sp.tokens@).push(tok) + cont1->Ok_0));
                        }
                    }
                },
            }
        }
    }
}

/// Clones a token list element by element.
fn clone_tokens(v: &Vec<Token>) -> (r: Vec<Token>)
    ensures
        tokens_view(r@) == tokens_view(v@),
{
    let mut r: Vec<Token> = Vec::new();
    let mut i: usize = 0;
    while i < v.len()
        invariant
            i <= v@.len(),
            r@.len() == i as int,
            forall|j: int| 0 <= j < i as int ==> #[trigger] r@[j]@ == v@[j]@,
        decreases v@.len() - i,
    {
        let t = v[i].clone();
        r.push(t);
        i = i + 1;
    }
    proof {
        assert forall|j: int| 0 <= j < v@.len() implies tokens_view(r@)[j] == tokens_view(
            v@,
        )[j] by {
            assert(r@[j]@ == v@[j]@);
        }
        assert(tokens_view(r@) =~= tokens_view(v@));
    }
    r
}

/// Scans a whole source buffer in one pass: the complete token list, always
/// ending in exactly one end-of-input token, or the first fatal error, as
/// `scan_spec` describes.
pub fn scan_all(source: Vec<u8>) -> (r: Result<Vec<Token>, ScanError>)
    requires
        source@.len() < usize::MAX,
    ensures
        ({
            let s = scan_spec(source@);
            match r {
                Ok(ts) => s is Ok && tokens_view(ts@) == s->Ok_0,
                Err(e) => s is Err && e@ == s->Err_0,
            }
        }),
{
    let mut sc = Scanner::new(source);
    sc.scan_tokens()
}

} // verus!
