//! Library-wide laws: statements that hold of every scan, proved once and
//! for all against the specification model.

use vstd::prelude::*;
use crate::token::Opcode;
use crate::token::Register;
use crate::token::RegisterPair;
use crate::token::SpecScanError;
use crate::token::SpecToken;
use crate::catalog::Shape;
use crate::catalog::shape_of;
use crate::catalog::zero_opcode;
use crate::catalog::pair_of_text;
use crate::model::is_hws;
use crate::model::is_line_break;
use crate::model::is_blank;
use crate::model::is_alpha;
use crate::model::is_alnum;
use crate::model::hws_end;
use crate::model::alpha_end;
use crate::model::alnum_end;
use crate::model::skip_blanks;
use crate::model::ScanPos;
use crate::model::line_blank_from;
use crate::model::parse_reg_at;
use crate::model::parse_pair_at;
use crate::model::parse_comma_at;
use crate::model::parse_num_at;
use crate::model::parse_rst_at;
use crate::model::parse_instr;
use crate::model::eof_token;
use crate::model::scan_from;
use crate::model::scan_spec;
use crate::model::lemma_hws_end_props;
use crate::model::lemma_alpha_end_props;
use crate::model::lemma_alnum_end_props;
use crate::model::lemma_skip_blanks_props;
use crate::model::lemma_parse_instr_bounds;

verus! {

/// Scanning is deterministic: the result is a function of the source bytes
/// alone, so repeated scans of equal buffers yield identical token sequences
/// and identical line and column values.
pub proof fn lemma_scan_deterministic(a: Seq<u8>, b: Seq<u8>)
    requires
        a == b,
    ensures
        scan_spec(a) == scan_spec(b),
{
}

/// Skipping blanks over an all-blank suffix reaches the end of the buffer.
proof fn lemma_skip_blanks_all_blank(src: Seq<u8>, pos: nat, line: nat, ls: nat)
    requires
        pos <= src.len(),
        forall|i: int| pos <= i < src.len() ==> is_blank(src[i]),
    ensures
        skip_blanks(src, pos, line, ls).pos == src.len(),
    decreases src.len() - pos,
{
    if pos < src.len() {
        assert(is_blank(src[pos as int]));
        if is_line_break(src[pos as int]) {
            lemma_skip_blanks_all_blank(src, pos + 1, line + 1, pos + 1);
        } else {
            lemma_skip_blanks_all_blank(src, pos + 1, line, ls);
        }
    }
}

/// A whitespace-only source (including the empty one) scans successfully to
/// a token sequence holding only the end-of-input token.
pub proof fn lemma_blank_input(src: Seq<u8>)
    requires
        forall|i: int| 0 <= i < src.len() ==> is_blank(src[i]),
    ensures
        scan_spec(src) matches Ok(ts) ==> ts.len() == 1 && ts[0].opcode == Opcode::Eof
            && ts[0].lexeme.len() == 0,
        scan_spec(src) is Ok,
{
    lemma_skip_blanks_all_blank(src, 0, 1, 0);
}

/// A run of alphabetic bytes reaching the end of the buffer ends there.
proof fn lemma_alpha_end_all(src: Seq<u8>, p: nat)
    requires
        p <= src.len(),
        forall|i: int| p <= i < src.len() ==> is_alpha(src[i]),
    ensures
        alpha_end(src, p) == src.len(),
    decreases src.len() - p,
{
    if p < src.len() {
        assert(is_alpha(src[p as int]));
        lemma_alpha_end_all(src, p + 1);
    }
}

/// A catalog mnemonic consists of two to four uppercase letters.
proof fn lemma_mnemonic_alpha(m: Seq<u8>)
    requires
        shape_of(m) is Some,
    ensures
        1 <= m.len() <= 4,
        forall|i: int| 0 <= i < m.len() ==> is_alpha(m[i]),
{
    assert forall|i: int| 0 <= i < m.len() implies is_alpha(m[i]) by {}
}

/// A source holding exactly one zero-operand mnemonic scans to exactly one
/// instruction token, at line 1 and column 0 with the whole source as its
/// lexeme, followed by the end-of-input token.
pub proof fn lemma_zero_op_single_line(m: Seq<u8>)
    requires
        shape_of(m) == Some(Shape::Zero),
    ensures
        zero_opcode(m) is Some,
        scan_spec(m) == Ok::<Seq<SpecToken>, SpecScanError>(
            seq![
                SpecToken {
                    opcode: zero_opcode(m)->Some_0,
                    lexeme: m,
                    line: 1,
                    column: 0,
                },
                eof_token(1),
            ],
        ),
{
    lemma_mnemonic_alpha(m);
    lemma_alpha_end_all(m, 0);
    assert(m.subrange(0, m.len() as int) =~= m);
    assert(hws_end(m, m.len() as nat) == m.len());
    assert(line_blank_from(m, m.len() as nat));
    let sp = skip_blanks(m, 0, 1, 0);
    assert(!is_blank(m[0]));
    assert(sp == (ScanPos { pos: 0nat, line: 1nat, line_start: 0nat }));
    assert(parse_instr(m, 0, 1, 0) == Ok::<(Opcode, nat), SpecScanError>(
        (zero_opcode(m)->Some_0, m.len() as nat),
    ));
    assert(skip_blanks(m, m.len() as nat, 1, 0).pos == m.len());
    assert(scan_from(m, m.len() as nat, 1, 0) == Ok::<Seq<SpecToken>, SpecScanError>(
        seq![eof_token(1)],
    ));
    assert(seq![
        SpecToken { opcode: zero_opcode(m)->Some_0, lexeme: m, line: 1, column: 0 },
    ] + seq![eof_token(1)] =~= seq![
        SpecToken { opcode: zero_opcode(m)->Some_0, lexeme: m, line: 1, column: 0 },
        eof_token(1),
    ]);
}

/// A run of alphabetic bytes over `p..e`, stopped by a non-letter (or the
/// end of input) at `e`, ends exactly at `e`.
proof fn lemma_alpha_end_exact(src: Seq<u8>, p: nat, e: nat)
    requires
        p <= e <= src.len(),
        forall|i: int| p <= i < e ==> is_alpha(src[i]),
        e < src.len() ==> !is_alpha(src[e as int]),
    ensures
        alpha_end(src, p) == e,
    decreases e - p,
{
    if p < e {
        assert(is_alpha(src[p as int]));
        lemma_alpha_end_exact(src, p + 1, e);
    }
}

/// The source decomposes, from `pos` on, into the lines of `ms`: each entry
/// is one whole source line, each line but possibly the last is closed by a
/// line terminator, and the last reaches the end of input.
pub open spec fn lines_from(src: Seq<u8>, pos: nat, ms: Seq<Seq<u8>>) -> bool
    decreases ms.len(),
{
    if ms.len() == 0 {
        pos == src.len()
    } else {
        let m = ms[0];
        &&& pos + m.len() <= src.len()
        &&& src.subrange(pos as int, (pos + m.len()) as int) == m
        &&& if pos + m.len() == src.len() {
            ms.len() == 1
        } else {
            is_line_break(src[(pos + m.len()) as int]) && lines_from(
                src,
                (pos + m.len() + 1) as nat,
                ms.drop_first(),
            )
        }
    }
}

/// Every entry of `ms` is a zero-operand mnemonic of the catalog.
pub open spec fn all_zero_op(ms: Seq<Seq<u8>>) -> bool {
    forall|i: int| 0 <= i < ms.len() ==> shape_of(#[trigger] ms[i]) == Some(Shape::Zero)
}

/// The scan of a zero-operand program, from the start of any of its lines:
/// one token per remaining line, in source order, then the end-of-input
/// token.
proof fn lemma_zero_op_program_from(src: Seq<u8>, pos: nat, line_no: nat, ms: Seq<Seq<u8>>)
    requires
        pos <= src.len(),
        lines_from(src, pos, ms),
        all_zero_op(ms),
    ensures
        scan_from(src, pos, line_no, pos) is Ok,
        scan_from(src, pos, line_no, pos)->Ok_0.len() == ms.len() + 1,
        forall|i: int|
            0 <= i < ms.len() ==> scan_from(src, pos, line_no, pos)->Ok_0[i] == (SpecToken {
                opcode: zero_opcode(#[trigger] ms[i])->Some_0,
                lexeme: ms[i],
                line: line_no + i,
                column: 0,
            }),
        scan_from(src, pos, line_no, pos)->Ok_0.last().opcode == Opcode::Eof,
        scan_from(src, pos, line_no, pos)->Ok_0.last().lexeme == Seq::<u8>::empty(),
    decreases ms.len(),
{
    if ms.len() == 0 {
        assert(scan_from(src, pos, line_no, pos) == Ok::<Seq<SpecToken>, SpecScanError>(
            seq![eof_token(line_no)],
        ));
    } else {
        let m = ms[0];
        let mend = (pos + m.len()) as nat;
        assert(shape_of(m) == Some(Shape::Zero));
        lemma_mnemonic_alpha(m);
        assert forall|i: int| pos <= i < mend implies is_alpha(src[i]) by {
            assert(src[i] == m[i - pos]);
        }
        lemma_alpha_end_exact(src, pos, mend);
        assert(src.subrange(pos as int, mend as int) =~= m);
        assert(is_alpha(src[pos as int]));
        assert(!is_blank(src[pos as int]));
        assert(line_blank_from(src, mend));
        assert(parse_instr(src, pos, line_no, pos) == Ok::<(Opcode, nat), SpecScanError>(
            (zero_opcode(m)->Some_0, mend),
        ));
        let tok = SpecToken {
            opcode: zero_opcode(m)->Some_0,
            lexeme: m,
            line: line_no as int,
            column: 0,
        };
        if mend == src.len() {
            assert(ms.len() == 1);
            assert(scan_from(src, mend, line_no, pos) == Ok::<Seq<SpecToken>, SpecScanError>(
                seq![eof_token(line_no)],
            ));
            let ts = scan_from(src, pos, line_no, pos)->Ok_0;
            assert(ts == seq![tok] + seq![eof_token(line_no)]);
            assert(ts[0] == tok);
            assert(ts.last() == eof_token(line_no));
        } else {
            let pos2 = (mend + 1) as nat;
            lemma_zero_op_program_from(src, pos2, line_no + 1, ms.drop_first());
            assert(skip_blanks(src, mend, line_no, pos) == skip_blanks(
                src,
                pos2,
                line_no + 1,
                pos2,
            ));
            let rest = scan_from(src, pos2, line_no + 1, pos2)->Ok_0;
            assert(scan_from(src, mend, line_no, pos) == scan_from(
                src,
                pos2,
                line_no + 1,
                pos2,
            ));
            let ts = scan_from(src, pos, line_no, pos)->Ok_0;
            assert(ts == seq![tok] + rest);
            assert(ts[0] == tok);
            assert forall|i: int| 1 <= i < ms.len() implies ts[i] == (SpecToken {
                opcode: zero_opcode(ms[i])->Some_0,
                lexeme: ms[i],
                line: line_no + i,
                column: 0,
            }) by {
                assert(ts[i] == rest[i - 1]);
                assert(ms.drop_first()[i - 1] == ms[i]);
            }
            assert(ts.last() == rest.last());
        }
    }
}

/// A valid program of zero-operand instructions, one per line, scans to
/// exactly one token per instruction line, in source order, each at column 0
/// of its 1-based line, followed by exactly one end-of-input token.
pub proof fn lemma_zero_op_program(src: Seq<u8>, ms: Seq<Seq<u8>>)
    requires
        lines_from(src, 0, ms),
        all_zero_op(ms),
    ensures
        scan_spec(src) is Ok,
        scan_spec(src)->Ok_0.len() == ms.len() + 1,
        forall|i: int|
            0 <= i < ms.len() ==> scan_spec(src)->Ok_0[i] == (SpecToken {
                opcode: zero_opcode(#[trigger] ms[i])->Some_0,
                lexeme: ms[i],
                line: 1 + i,
                column: 0,
            }),
        scan_spec(src)->Ok_0.last().opcode == Opcode::Eof,
{
    lemma_zero_op_program_from(src, 0, 1, ms);
}

/// A horizontal-whitespace run that stays inside `off..cut` looks the same
/// from inside the slice `src[off..cut]`.
proof fn lemma_hws_end_local(src: Seq<u8>, off: nat, cut: nat, p: nat)
    requires
        off <= p <= cut <= src.len(),
        hws_end(src, p) <= cut,
    ensures
        hws_end(src.subrange(off as int, cut as int), (p - off) as nat) == hws_end(src, p) - off,
    decreases cut - p,
{
    let lex = src.subrange(off as int, cut as int);
    lemma_hws_end_props(src, p);
    if p < src.len() && is_hws(src[p as int]) {
        assert(p < cut);
        assert(lex[(p - off) as int] == src[p as int]);
        lemma_hws_end_local(src, off, cut, p + 1);
    } else {
        if ((p - off) as nat) < lex.len() {
            assert(lex[(p - off) as int] == src[p as int]);
        }
    }
}

/// An alphabetic run that stays inside `off..cut` looks the same from inside
/// the slice `src[off..cut]`.
proof fn lemma_alpha_end_local(src: Seq<u8>, off: nat, cut: nat, p: nat)
    requires
        off <= p <= cut <= src.len(),
        alpha_end(src, p) <= cut,
    ensures
        alpha_end(src.subrange(off as int, cut as int), (p - off) as nat) == alpha_end(src, p)
            - off,
    decreases cut - p,
{
    let lex = src.subrange(off as int, cut as int);
    lemma_alpha_end_props(src, p);
    if p < src.len() && is_alpha(src[p as int]) {
        assert(p < cut);
        assert(lex[(p - off) as int] == src[p as int]);
        lemma_alpha_end_local(src, off, cut, p + 1);
    } else {
        if ((p - off) as nat) < lex.len() {
            assert(lex[(p - off) as int] == src[p as int]);
        }
    }
}

/// An alphanumeric run that stays inside `off..cut` looks the same from
/// inside the slice `src[off..cut]`.
proof fn lemma_alnum_end_local(src: Seq<u8>, off: nat, cut: nat, p: nat)
    requires
        off <= p <= cut <= src.len(),
        alnum_end(src, p) <= cut,
    ensures
        alnum_end(src.subrange(off as int, cut as int), (p - off) as nat) == alnum_end(src, p)
            - off,
    decreases cut - p,
{
    let lex = src.subrange(off as int, cut as int);
    lemma_alnum_end_props(src, p);
    if p < src.len() && is_alnum(src[p as int]) {
        assert(p < cut);
        assert(lex[(p - off) as int] == src[p as int]);
        lemma_alnum_end_local(src, off, cut, p + 1);
    } else {
        if ((p - off) as nat) < lex.len() {
            assert(lex[(p - off) as int] == src[p as int]);
        }
    }
}

/// A successful single-register operand parse looks the same from inside the
/// slice `src[off..cut]`, whatever line bookkeeping and mnemonic it carries.
proof fn lemma_parse_reg_local(
    src: Seq<u8>,
    off: nat,
    cut: nat,
    p: nat,
    line: nat,
    ls: nat,
    line2: nat,
    ls2: nat,
    m: Seq<u8>,
    mb: Seq<u8>,
)
    requires
        off <= p <= cut <= src.len(),
        parse_reg_at(src, p, line, ls, m) is Ok,
        parse_reg_at(src, p, line, ls, m)->Ok_0.1 <= cut,
    ensures
        parse_reg_at(src.subrange(off as int, cut as int), (p - off) as nat, line2, ls2, mb)
            == Ok::<(Register, nat), SpecScanError>(
            (
                parse_reg_at(src, p, line, ls, m)->Ok_0.0,
                (parse_reg_at(src, p, line, ls, m)->Ok_0.1 - off) as nat,
            ),
        ),
{
    let lex = src.subrange(off as int, cut as int);
    let q = hws_end(src, p);
    lemma_hws_end_props(src, p);
    lemma_hws_end_local(src, off, cut, p);
    lemma_alpha_end_local(src, off, cut, q);
    assert(lex[(q - off) as int] == src[q as int]);
}

/// A successful register-pair operand parse looks the same from inside the
/// slice `src[off..cut]`.
proof fn lemma_parse_pair_local(
    src: Seq<u8>,
    off: nat,
    cut: nat,
    p: nat,
    line: nat,
    ls: nat,
    line2: nat,
    ls2: nat,
    m: Seq<u8>,
    mb: Seq<u8>,
)
    requires
        off <= p <= cut <= src.len(),
        parse_pair_at(src, p, line, ls, m) is Ok,
        parse_pair_at(src, p, line, ls, m)->Ok_0.1 <= cut,
    ensures
        parse_pair_at(src.subrange(off as int, cut as int), (p - off) as nat, line2, ls2, mb)
            == Ok::<(RegisterPair, nat), SpecScanError>(
            (
                parse_pair_at(src, p, line, ls, m)->Ok_0.0,
                (parse_pair_at(src, p, line, ls, m)->Ok_0.1 - off) as nat,
            ),
        ),
{
    let lex = src.subrange(off as int, cut as int);
    let q = hws_end(src, p);
    let e = alpha_end(src, q);
    lemma_hws_end_props(src, p);
    lemma_alpha_end_props(src, q);
    let t = src.subrange(q as int, e as int);
    assert(pair_of_text(t) is Some);
    assert(t.len() >= 1);
    lemma_hws_end_local(src, off, cut, p);
    lemma_alpha_end_local(src, off, cut, q);
    assert(lex.subrange((q - off) as int, (e - off) as int) =~= t);
}

/// A successful comma parse looks the same from inside the slice
/// `src[off..cut]`.
proof fn lemma_parse_comma_local(
    src: Seq<u8>,
    off: nat,
    cut: nat,
    p: nat,
    line: nat,
    ls: nat,
    line2: nat,
    ls2: nat,
    m: Seq<u8>,
    mb: Seq<u8>,
)
    requires
        off <= p <= cut <= src.len(),
        parse_comma_at(src, p, line, ls, m) is Ok,
        parse_comma_at(src, p, line, ls, m)->Ok_0 <= cut,
    ensures
        parse_comma_at(src.subrange(off as int, cut as int), (p - off) as nat, line2, ls2, mb)
            == Ok::<nat, SpecScanError>((parse_comma_at(src, p, line, ls, m)->Ok_0 - off) as nat),
{
    let lex = src.subrange(off as int, cut as int);
    let q = hws_end(src, p);
    lemma_hws_end_props(src, p);
    lemma_hws_end_local(src, off, cut, p);
    assert(lex[(q - off) as int] == src[q as int]);
}

/// A successful numeric operand parse looks the same from inside the slice
/// `src[off..cut]`.
proof fn lemma_parse_num_local(
    src: Seq<u8>,
    off: nat,
    cut: nat,
    p: nat,
    w: nat,
    line: nat,
    ls: nat,
    line2: nat,
    ls2: nat,
)
    requires
        off <= p <= cut <= src.len(),
        parse_num_at(src, p, w, line, ls) is Ok,
        parse_num_at(src, p, w, line, ls)->Ok_0.1 <= cut,
    ensures
        parse_num_at(src.subrange(off as int, cut as int), (p - off) as nat, w, line2, ls2)
            == Ok::<(int, nat), SpecScanError>(
            (
                parse_num_at(src, p, w, line, ls)->Ok_0.0,
                (parse_num_at(src, p, w, line, ls)->Ok_0.1 - off) as nat,
            ),
        ),
{
    let lex = src.subrange(off as int, cut as int);
    let q = hws_end(src, p);
    let e = alnum_end(src, q);
    lemma_hws_end_props(src, p);
    lemma_alnum_end_props(src, q);
    lemma_hws_end_local(src, off, cut, p);
    lemma_alnum_end_local(src, off, cut, q);
    assert(lex.subrange((q - off) as int, (e - off) as int) =~= src.subrange(
        q as int,
        e as int,
    ));
}

/// A successful restart-vector parse looks the same from inside the slice
/// `src[off..cut]`.
proof fn lemma_parse_rst_local(
    src: Seq<u8>,
    off: nat,
    cut: nat,
    p: nat,
    line: nat,
    ls: nat,
    line2: nat,
    ls2: nat,
)
    requires
        off <= p <= cut <= src.len(),
        parse_rst_at(src, p, line, ls) is Ok,
        parse_rst_at(src, p, line, ls)->Ok_0.1 <= cut,
    ensures
        parse_rst_at(src.subrange(off as int, cut as int), (p - off) as nat, line2, ls2)
            == Ok::<(u8, nat), SpecScanError>(
            (
                parse_rst_at(src, p, line, ls)->Ok_0.0,
                (parse_rst_at(src, p, line, ls)->Ok_0.1 - off) as nat,
            ),
        ),
{
    let lex = src.subrange(off as int, cut as int);
    let q = hws_end(src, p);
    let e = alnum_end(src, q);
    lemma_hws_end_props(src, p);
    lemma_alnum_end_props(src, q);
    lemma_hws_end_local(src, off, cut, p);
    lemma_alnum_end_local(src, off, cut, q);
    assert(lex[(q - off) as int] == src[q as int]);
}

/// A successfully parsed instruction is a function of its own text alone:
/// parsing the instruction's lexeme in isolation yields the same opcode and
/// consumes the whole lexeme, whatever line bookkeeping surrounds it.
pub proof fn lemma_parse_instr_local(
    src: Seq<u8>,
    pos: nat,
    line: nat,
    ls: nat,
    line2: nat,
    ls2: nat,
)
    requires
        pos < src.len(),
        is_alpha(src[pos as int]),
        parse_instr(src, pos, line, ls) is Ok,
    ensures
        ({
            let r = parse_instr(src, pos, line, ls)->Ok_0;
            let lex = src.subrange(pos as int, r.1 as int);
            parse_instr(lex, 0, line2, ls2) == Ok::<(Opcode, nat), SpecScanError>(
                (r.0, lex.len() as nat),
            )
        }),
{
    let r = parse_instr(src, pos, line, ls)->Ok_0;
    let end = r.1;
    lemma_parse_instr_bounds(src, pos, line, ls);
    let lex = src.subrange(pos as int, end as int);
    let mend = alpha_end(src, pos);
    lemma_alpha_end_props(src, pos);
    let m = src.subrange(pos as int, mend as int);
    assert(shape_of(m) is Some);
    let shape = shape_of(m)->Some_0;
    // the mnemonic ends inside the lexeme in every shape
    assert(mend <= end) by {
        match shape {
            Shape::Zero => {},
            Shape::Reg => {
                lemma_hws_end_props(src, mend);
            },
            Shape::Pair => {
                lemma_hws_end_props(src, mend);
                lemma_alpha_end_props(src, hws_end(src, mend));
            },
            Shape::Addr => {
                lemma_hws_end_props(src, mend);
                lemma_alnum_end_props(src, hws_end(src, mend));
            },
            Shape::RegImm => {
                lemma_hws_end_props(src, mend);
            },
            Shape::RegReg => {
                lemma_hws_end_props(src, mend);
            },
            Shape::PairImm => {
                lemma_hws_end_props(src, mend);
                lemma_alpha_end_props(src, hws_end(src, mend));
            },
            Shape::Rst => {
                lemma_hws_end_props(src, mend);
                lemma_alnum_end_props(src, hws_end(src, mend));
            },
        }
    }
    lemma_alpha_end_local(src, pos, end, pos);
    assert(lex.subrange(0, (mend - pos) as int) =~= m);
    assert(hws_end(lex, lex.len() as nat) == lex.len());
    assert(line_blank_from(lex, lex.len() as nat));
    match shape {
        Shape::Zero => {
            assert(lex =~= m);
        },
        Shape::Reg => {
            lemma_parse_reg_local(src, pos, end, mend, line, ls, line2, ls2, m, m);
        },
        Shape::Pair => {
            lemma_parse_pair_local(src, pos, end, mend, line, ls, line2, ls2, m, m);
        },
        Shape::Addr => {
            lemma_parse_num_local(src, pos, end, mend, 4, line, ls, line2, ls2);
        },
        Shape::RegImm => {
            let e1 = parse_reg_at(src, mend, line, ls, m)->Ok_0.1;
            let e2 = parse_comma_at(src, e1, line, ls, m)->Ok_0;
            lemma_hws_end_props(src, mend);
            lemma_hws_end_props(src, e1);
            lemma_hws_end_props(src, e2);
            lemma_alnum_end_props(src, hws_end(src, e2));
            lemma_parse_reg_local(src, pos, end, mend, line, ls, line2, ls2, m, m);
            lemma_parse_comma_local(src, pos, end, e1, line, ls, line2, ls2, m, m);
            lemma_parse_num_local(src, pos, end, e2, 2, line, ls, line2, ls2);
        },
        Shape::RegReg => {
            let e1 = parse_reg_at(src, mend, line, ls, m)->Ok_0.1;
            let e2 = parse_comma_at(src, e1, line, ls, m)->Ok_0;
            lemma_hws_end_props(src, mend);
            lemma_hws_end_props(src, e1);
            lemma_hws_end_props(src, e2);
            lemma_alpha_end_props(src, hws_end(src, e2));
            lemma_parse_reg_local(src, pos, end, mend, line, ls, line2, ls2, m, m);
            lemma_parse_comma_local(src, pos, end, e1, line, ls, line2, ls2, m, m);
            lemma_parse_reg_local(src, pos, end, e2, line, ls, line2, ls2, m, m);
        },
        Shape::PairImm => {
            let e1 = parse_pair_at(src, mend, line, ls, m)->Ok_0.1;
            let e2 = parse_comma_at(src, e1, line, ls, m)->Ok_0;
            lemma_hws_end_props(src, mend);
            lemma_alpha_end_props(src, hws_end(src, mend));
            lemma_hws_end_props(src, e1);
            lemma_hws_end_props(src, e2);
            lemma_alnum_end_props(src, hws_end(src, e2));
            lemma_parse_pair_local(src, pos, end, mend, line, ls, line2, ls2, m, m);
            lemma_parse_comma_local(src, pos, end, e1, line, ls, line2, ls2, m, m);
            lemma_parse_num_local(src, pos, end, e2, 4, line, ls, line2, ls2);
        },
        Shape::Rst => {
            lemma_parse_rst_local(src, pos, end, mend, line, ls, line2, ls2);
        },
    }
}

/// Scanning a buffer that holds exactly one instruction yields that
/// instruction's token followed by the end-of-input token.
proof fn lemma_scan_one_instr(lex: Seq<u8>, op: Opcode)
    requires
        lex.len() >= 1,
        is_alpha(lex[0]),
        parse_instr(lex, 0, 1, 0) == Ok::<(Opcode, nat), SpecScanError>((op, lex.len() as nat)),
    ensures
        scan_spec(lex) == Ok::<Seq<SpecToken>, SpecScanError>(
            seq![
                SpecToken { opcode: op, lexeme: lex, line: 1, column: 0 },
                eof_token(1),
            ],
        ),
{
    assert(!is_blank(lex[0]));
    assert(skip_blanks(lex, 0, 1, 0) == (ScanPos { pos: 0nat, line: 1nat, line_start: 0nat }));
    assert(skip_blanks(lex, lex.len() as nat, 1, 0).pos == lex.len());
    assert(scan_from(lex, lex.len() as nat, 1, 0) == Ok::<Seq<SpecToken>, SpecScanError>(
        seq![eof_token(1)],
    ));
    assert(lex.subrange(0, lex.len() as int) =~= lex);
    assert(seq![SpecToken { opcode: op, lexeme: lex, line: 1, column: 0 }] + seq![eof_token(1)]
        =~= seq![SpecToken { opcode: op, lexeme: lex, line: 1, column: 0 }, eof_token(1)]);
}

/// The round trip, stated from any cursor state: re-scanning the lexeme of
/// any token of a successful scan reproduces that token's opcode and lexeme.
proof fn lemma_round_trip_from(src: Seq<u8>, pos: nat, line: nat, ls: nat, i: int)
    requires
        pos <= src.len(),
        scan_from(src, pos, line, ls) is Ok,
        0 <= i < scan_from(src, pos, line, ls)->Ok_0.len(),
    ensures
        ({
            let ts = scan_from(src, pos, line, ls)->Ok_0;
            let rts = scan_spec(ts[i].lexeme);
            &&& rts is Ok
            &&& 1 <= rts->Ok_0.len() <= 2
            &&& rts->Ok_0[0].opcode == ts[i].opcode
            &&& rts->Ok_0[0].lexeme == ts[i].lexeme
        }),
    decreases src.len() - pos,
{
    let ts = scan_from(src, pos, line, ls)->Ok_0;
    lemma_skip_blanks_props(src, pos, line, ls);
    let sp = skip_blanks(src, pos, line, ls);
    if sp.pos >= src.len() {
        assert(ts == seq![eof_token(sp.line)]);
        assert(ts[i].lexeme == Seq::<u8>::empty());
        lemma_blank_input(ts[i].lexeme);
    } else {
        let pr = parse_instr(src, sp.pos, sp.line, sp.line_start)->Ok_0;
        let end = pr.1;
        lemma_parse_instr_bounds(src, sp.pos, sp.line, sp.line_start);
        let rest = scan_from(src, end, sp.line, sp.line_start)->Ok_0;
        let tok = SpecToken {
            opcode: pr.0,
            lexeme: src.subrange(sp.pos as int, end as int),
            line: sp.line as int,
            column: sp.pos - sp.line_start,
        };
        assert(ts == seq![tok] + rest);
        if i == 0 {
            let lex = src.subrange(sp.pos as int, end as int);
            lemma_parse_instr_local(src, sp.pos, sp.line, sp.line_start, 1, 0);
            assert(lex[0] == src[sp.pos as int]);
            lemma_scan_one_instr(lex, pr.0);
        } else {
            assert(ts[i] == rest[i - 1]);
            lemma_round_trip_from(src, end, sp.line, sp.line_start, i - 1);
        }
    }
}

/// No catalog instruction resolves to the end-of-input opcode.
proof fn lemma_parse_instr_not_eof(src: Seq<u8>, pos: nat, line: nat, ls: nat)
    requires
        parse_instr(src, pos, line, ls) is Ok,
    ensures
        parse_instr(src, pos, line, ls)->Ok_0.0 != Opcode::Eof,
{
}

/// From any cursor state, a successful scan yields a non-empty token
/// sequence whose last token, and only that one, is the end-of-input token.
proof fn lemma_single_eof_from(src: Seq<u8>, pos: nat, line: nat, ls: nat)
    requires
        pos <= src.len(),
        scan_from(src, pos, line, ls) is Ok,
    ensures
        ({
            let ts = scan_from(src, pos, line, ls)->Ok_0;
            &&& ts.len() >= 1
            &&& ts.last().opcode == Opcode::Eof
            &&& forall|i: int| 0 <= i < ts.len() - 1 ==> ts[i].opcode != Opcode::Eof
        }),
    decreases src.len() - pos,
{
    let ts = scan_from(src, pos, line, ls)->Ok_0;
    lemma_skip_blanks_props(src, pos, line, ls);
    let sp = skip_blanks(src, pos, line, ls);
    if sp.pos >= src.len() {
        assert(ts == seq![eof_token(sp.line)]);
    } else {
        let pr = parse_instr(src, sp.pos, sp.line, sp.line_start)->Ok_0;
        lemma_parse_instr_bounds(src, sp.pos, sp.line, sp.line_start);
        lemma_parse_instr_not_eof(src, sp.pos, sp.line, sp.line_start);
        lemma_single_eof_from(src, pr.1, sp.line, sp.line_start);
        let rest = scan_from(src, pr.1, sp.line, sp.line_start)->Ok_0;
        assert(ts.last() == rest.last());
        assert forall|i: int| 0 <= i < ts.len() - 1 implies ts[i].opcode != Opcode::Eof by {
            if i >= 1 {
                assert(ts[i] == rest[i - 1]);
            }
        }
    }
}

/// Every successful scan ends with exactly one end-of-input token: the token
/// sequence is never empty, its last token is the end-of-input token, and no
/// earlier token is.
pub proof fn lemma_single_eof(src: Seq<u8>)
    requires
        scan_spec(src) is Ok,
    ensures
        ({
            let ts = scan_spec(src)->Ok_0;
            &&& ts.len() >= 1
            &&& ts.last().opcode == Opcode::Eof
            &&& forall|i: int| 0 <= i < ts.len() - 1 ==> ts[i].opcode != Opcode::Eof
        }),
{
    lemma_single_eof_from(src, 0, 1, 0);
}

/// Round trip: the lexeme of every token a successful scan emits, when
/// re-scanned alone, re-produces an identical opcode (and lexeme) as the
/// first token of that re-scan. Tokenization is idempotent on isolated
/// instruction text.
pub proof fn lemma_lexeme_round_trip(src: Seq<u8>, i: int)
    requires
        scan_spec(src) is Ok,
        0 <= i < scan_spec(src)->Ok_0.len(),
    ensures
        ({
            let ts = scan_spec(src)->Ok_0;
            let rts = scan_spec(ts[i].lexeme);
            &&& rts is Ok
            &&& 1 <= rts->Ok_0.len() <= 2
            &&& rts->Ok_0[0].opcode == ts[i].opcode
            &&& rts->Ok_0[0].lexeme == ts[i].lexeme
        }),
{
    lemma_round_trip_from(src, 0, 1, 0, i);
}

} // verus!
