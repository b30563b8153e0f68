use asm8080::scanner::scan_all;
use asm8080::scanner::Scanner;
use asm8080::token::Opcode;
use asm8080::token::Register;
use asm8080::token::RegisterPair;
use asm8080::token::ScanError;

fn ok(src: &[u8]) -> Vec<asm8080::token::Token> {
    scan_all(src.to_vec()).expect("scan should succeed")
}

fn err(src: &[u8]) -> ScanError {
    scan_all(src.to_vec()).expect_err("scan should fail")
}

#[test]
fn empty_input_yields_only_eof() {
    let ts = ok(b"");
    assert_eq!(ts.len(), 1);
    assert_eq!(ts[0].opcode, Opcode::Eof);
    assert_eq!(ts[0].lexeme, Vec::<u8>::new());
    assert_eq!(ts[0].line, 1);
    assert_eq!(ts[0].column, 0);
}

#[test]
fn whitespace_only_input_yields_only_eof() {
    let ts = ok(b"  \t \r\n   \n\t");
    assert_eq!(ts.len(), 1);
    assert_eq!(ts[0].opcode, Opcode::Eof);
    assert_eq!(ts[0].line, 3);
}

#[test]
fn single_zero_operand_instruction() {
    let ts = ok(b"HLT");
    assert_eq!(ts.len(), 2);
    assert_eq!(ts[0].opcode, Opcode::Hlt);
    assert_eq!(ts[0].lexeme, b"HLT".to_vec());
    assert_eq!(ts[0].line, 1);
    assert_eq!(ts[0].column, 0);
    assert_eq!(ts[1].opcode, Opcode::Eof);
}

#[test]
fn zero_operand_program_one_token_per_line_in_order() {
    let ts = ok(b"HLT\nRET\nXCHG\nCMA\nSTC");
    assert_eq!(ts.len(), 6);
    assert_eq!(ts[0].opcode, Opcode::Hlt);
    assert_eq!(ts[1].opcode, Opcode::Ret);
    assert_eq!(ts[2].opcode, Opcode::Xchg);
    assert_eq!(ts[3].opcode, Opcode::Cma);
    assert_eq!(ts[4].opcode, Opcode::Stc);
    assert_eq!(ts[5].opcode, Opcode::Eof);
    for (i, t) in ts.iter().take(5).enumerate() {
        assert_eq!(t.line, i + 1);
        assert_eq!(t.column, 0);
    }
}

#[test]
fn zero_operand_program_with_trailing_newline() {
    let ts = ok(b"HLT\nRET\n");
    assert_eq!(ts.len(), 3);
    assert_eq!(ts[0].opcode, Opcode::Hlt);
    assert_eq!(ts[1].opcode, Opcode::Ret);
    assert_eq!(ts[2].opcode, Opcode::Eof);
    assert_eq!(ts[2].line, 3);
}

#[test]
fn all_return_variants() {
    let ts = ok(b"RET\nRNZ\nRZ\nRNC\nRC\nRPO\nRPE\nRP\nRM");
    let want = [
        Opcode::Ret,
        Opcode::Rnz,
        Opcode::Rz,
        Opcode::Rnc,
        Opcode::Rc,
        Opcode::Rpo,
        Opcode::Rpe,
        Opcode::Rp,
        Opcode::Rm,
    ];
    assert_eq!(ts.len(), want.len() + 1);
    for (t, w) in ts.iter().zip(want.iter()) {
        assert_eq!(t.opcode, *w);
    }
}

#[test]
fn mov_two_register_form() {
    let ts = ok(b"MOV A,B");
    assert_eq!(ts.len(), 2);
    assert_eq!(ts[0].opcode, Opcode::Mov(Register::A, Register::B));
    assert_eq!(ts[0].lexeme, b"MOV A,B".to_vec());
}

#[test]
fn mov_whitespace_insignificance() {
    let tight = ok(b"MOV A,B");
    let spaced = ok(b"MOV A, B");
    let padded = ok(b"MOV  A , B");
    assert_eq!(tight[0].opcode, Opcode::Mov(Register::A, Register::B));
    assert_eq!(spaced[0].opcode, tight[0].opcode);
    assert_eq!(padded[0].opcode, tight[0].opcode);
}

#[test]
fn mvi_immediate_form() {
    let ts = ok(b"MVI A,03");
    assert_eq!(ts.len(), 2);
    assert_eq!(ts[0].opcode, Opcode::Mvi(Register::A, 0x03));
}

#[test]
fn mvi_hex_digits_both_cases() {
    assert_eq!(ok(b"MVI B,ff")[0].opcode, Opcode::Mvi(Register::B, 0xff));
    assert_eq!(ok(b"MVI C,0A")[0].opcode, Opcode::Mvi(Register::C, 0x0a));
}

#[test]
fn mvi_malformed_numeric_operand() {
    let e = err(b"MVI A,GG");
    assert_eq!(
        e,
        ScanError::MalformedNumericOperand { line: 1, column: 6, text: b"GG".to_vec() }
    );
}

#[test]
fn mvi_numeric_operand_wrong_length() {
    let e = err(b"MVI A,123");
    assert_eq!(
        e,
        ScanError::MalformedNumericOperand { line: 1, column: 6, text: b"123".to_vec() }
    );
}

#[test]
fn mvi_numeric_operand_absent() {
    let e = err(b"MVI A,");
    assert_eq!(
        e,
        ScanError::MalformedNumericOperand { line: 1, column: 6, text: Vec::new() }
    );
}

#[test]
fn lxi_pair_immediate_form() {
    let ts = ok(b"LXI B,1234");
    assert_eq!(ts.len(), 2);
    assert_eq!(ts[0].opcode, Opcode::Lxi(RegisterPair::B, 0x1234));
}

#[test]
fn lxi_stack_pointer_pair() {
    assert_eq!(ok(b"LXI SP,2400")[0].opcode, Opcode::Lxi(RegisterPair::S, 0x2400));
}

#[test]
fn rst_in_range() {
    let ts = ok(b"RST 7");
    assert_eq!(ts[0].opcode, Opcode::Rst(7));
    assert_eq!(ok(b"RST 0")[0].opcode, Opcode::Rst(0));
}

#[test]
fn rst_out_of_range() {
    let e = err(b"RST 9");
    assert_eq!(e, ScanError::OutOfRangeRestartVector { line: 1, column: 4, digit: 9 });
}

#[test]
fn rst_non_digit_operand() {
    let e = err(b"RST A");
    assert_eq!(
        e,
        ScanError::MalformedNumericOperand { line: 1, column: 4, text: b"A".to_vec() }
    );
}

#[test]
fn unknown_instruction_named_at_position() {
    let e = err(b"FOO A,B");
    assert_eq!(
        e,
        ScanError::UnknownInstruction { line: 1, column: 0, mnemonic: b"FOO".to_vec() }
    );
}

#[test]
fn unknown_instruction_on_later_line() {
    let e = err(b"HLT\n  FOO A,B");
    assert_eq!(
        e,
        ScanError::UnknownInstruction { line: 2, column: 2, mnemonic: b"FOO".to_vec() }
    );
}

#[test]
fn unexpected_character() {
    let e = err(b"HLT\n@");
    assert_eq!(e, ScanError::UnexpectedCharacter { line: 2, column: 0, found: b'@' });
}

#[test]
fn malformed_register() {
    let e = err(b"ADD Q");
    assert_eq!(e, ScanError::MalformedRegister { line: 1, column: 4, found: b'Q' });
}

#[test]
fn register_operand_must_be_single_letter() {
    let e = err(b"ADD BC");
    assert_eq!(
        e,
        ScanError::InvalidOperandShape {
            line: 1,
            column: 4,
            mnemonic: b"ADD".to_vec(),
            got: b"BC".to_vec(),
        }
    );
}

#[test]
fn missing_register_operand() {
    let e = err(b"ADD");
    assert_eq!(
        e,
        ScanError::InvalidOperandShape {
            line: 1,
            column: 3,
            mnemonic: b"ADD".to_vec(),
            got: Vec::new(),
        }
    );
}

#[test]
fn trailing_operand_after_zero_operand_form() {
    let e = err(b"HLT A");
    assert_eq!(
        e,
        ScanError::InvalidOperandShape {
            line: 1,
            column: 4,
            mnemonic: b"HLT".to_vec(),
            got: b"A".to_vec(),
        }
    );
}

#[test]
fn mov_missing_comma() {
    let e = err(b"MOV A B");
    assert_eq!(
        e,
        ScanError::InvalidOperandShape {
            line: 1,
            column: 6,
            mnemonic: b"MOV".to_vec(),
            got: b"B".to_vec(),
        }
    );
}

#[test]
fn pair_instruction_rejects_single_register_name() {
    let e = err(b"PUSH A");
    assert_eq!(
        e,
        ScanError::InvalidOperandShape {
            line: 1,
            column: 5,
            mnemonic: b"PUSH".to_vec(),
            got: b"A".to_vec(),
        }
    );
}

#[test]
fn register_instructions() {
    assert_eq!(ok(b"ADD B")[0].opcode, Opcode::Add(Register::B));
    assert_eq!(ok(b"SUB L")[0].opcode, Opcode::Sub(Register::L));
    assert_eq!(ok(b"INR A")[0].opcode, Opcode::Inr(Register::A));
    assert_eq!(ok(b"DCR H")[0].opcode, Opcode::Dcr(Register::H));
    assert_eq!(ok(b"CMP E")[0].opcode, Opcode::Cmp(Register::E));
}

#[test]
fn pair_instructions() {
    assert_eq!(ok(b"DCX H")[0].opcode, Opcode::Dcx(RegisterPair::H));
    assert_eq!(ok(b"INX SP")[0].opcode, Opcode::Inx(RegisterPair::S));
    assert_eq!(ok(b"DAD B")[0].opcode, Opcode::Dad(RegisterPair::B));
    assert_eq!(ok(b"PUSH D")[0].opcode, Opcode::Push(RegisterPair::D));
    assert_eq!(ok(b"POP H")[0].opcode, Opcode::Pop(RegisterPair::H));
    assert_eq!(ok(b"STAX B")[0].opcode, Opcode::Stax(RegisterPair::B));
    assert_eq!(ok(b"LDAX D")[0].opcode, Opcode::Ldax(RegisterPair::D));
}

#[test]
fn address_instructions() {
    assert_eq!(ok(b"JMP 0100")[0].opcode, Opcode::Jmp(0x0100));
    assert_eq!(ok(b"STA 2000")[0].opcode, Opcode::Sta(0x2000));
    assert_eq!(ok(b"LDA 00ff")[0].opcode, Opcode::Lda(0x00ff));
    assert_eq!(ok(b"CALL 1234")[0].opcode, Opcode::Call(0x1234));
    assert_eq!(ok(b"SHLD FFFF")[0].opcode, Opcode::Shld(0xffff));
    assert_eq!(ok(b"JZ 0000")[0].opcode, Opcode::Jz(0));
}

#[test]
fn line_and_column_positions() {
    let ts = ok(b"  MOV A,B\n    MVI B,7F");
    assert_eq!(ts[0].line, 1);
    assert_eq!(ts[0].column, 2);
    assert_eq!(ts[1].line, 2);
    assert_eq!(ts[1].column, 4);
    assert_eq!(ts[2].opcode, Opcode::Eof);
    assert_eq!(ts[2].line, 2);
}

#[test]
fn lexeme_is_exact_source_slice() {
    let ts = ok(b"  MVI A , 0E  \nRET");
    assert_eq!(ts[0].lexeme, b"MVI A , 0E".to_vec());
    assert_eq!(ts[1].lexeme, b"RET".to_vec());
}

#[test]
fn round_trip_lexemes_reproduce_opcodes() {
    let ts = ok(b"MOV A, B\n  MVI C,1f\nLXI SP,0100\nRST 3\nHLT");
    for t in &ts {
        let again = scan_all(t.lexeme.clone()).expect("lexeme should re-scan");
        assert_eq!(again[0].opcode, t.opcode);
        assert_eq!(again[0].lexeme, t.lexeme);
    }
}

#[test]
fn scanning_is_deterministic() {
    let src = b"MOV A,B\nMVI A,03\nJMP 0100\nHLT\n";
    let a = ok(src);
    let b = ok(src);
    assert_eq!(a, b);
}

#[test]
fn fail_fast_reports_first_error() {
    let e = err(b"MOV A,B\nFOO\nBAR");
    assert_eq!(
        e,
        ScanError::UnknownInstruction { line: 2, column: 0, mnemonic: b"FOO".to_vec() }
    );
}

#[test]
fn scanner_cursor_methods() {
    let mut s = Scanner::new(b"AB".to_vec());
    assert!(!s.is_at_end());
    assert_eq!(s.peek(), b'A');
    assert_eq!(s.peek_next(), b'B');
    assert_eq!(s.advance(), b'A');
    assert_eq!(s.peek(), b'B');
    assert_eq!(s.peek_next(), 0);
    assert_eq!(s.advance(), b'B');
    assert!(s.is_at_end());
    assert_eq!(s.peek(), 0);
}

#[test]
fn scan_tokens_matches_scan_all() {
    let mut s = Scanner::new(b"MOV A,B\nHLT".to_vec());
    let ts = s.scan_tokens().expect("scan should succeed");
    assert_eq!(ts, ok(b"MOV A,B\nHLT"));
}

#[test]
fn register_from_char() {
    assert_eq!(Register::from_char('A'), Register::A);
    assert_eq!(Register::from_char('B'), Register::B);
    assert_eq!(Register::from_char('C'), Register::C);
    assert_eq!(Register::from_char('D'), Register::D);
    assert_eq!(Register::from_char('E'), Register::E);
    assert_eq!(Register::from_char('H'), Register::H);
    assert_eq!(Register::from_char('L'), Register::L);
    assert_eq!(Register::from_char('Q'), Register::Unrecognized);
    assert_eq!(Register::from_char('a'), Register::Unrecognized);
}

#[test]
fn lowercase_mnemonic_is_unknown() {
    let e = err(b"mov A,B");
    assert_eq!(
        e,
        ScanError::UnknownInstruction { line: 1, column: 0, mnemonic: b"mov".to_vec() }
    );
}

#[test]
fn mnemonic_glued_to_operand_is_unknown() {
    let e = err(b"MOVA,B");
    assert_eq!(
        e,
        ScanError::UnknownInstruction { line: 1, column: 0, mnemonic: b"MOVA".to_vec() }
    );
}
