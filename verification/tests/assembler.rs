use awsm::immediate::ImmediateOf;
use awsm::opcodes::jmp_opcode;
use awsm::place::{Displacement, EffectiveAddress, Place, PlaceOf, Scale, Size, parse_multiplier_and_register};
use awsm::program::lines::parse_function_call;
use awsm::program::{AsmError, Program};
use awsm::registers::Register;
use awsm::strings::{parse_string, strip_comments};
use awsm::text::trim;

fn text(e: AsmError) -> String {
    match e {
        AsmError::Invalid(m) | AsmError::Internal(m) => m.to_string(),
        AsmError::Quoting(m) => String::from_utf8(m).unwrap(),
    }
}

fn with_headers() -> Program {
    let mut p = Program::new();
    p.append_elf_header();
    p.append_program_header();
    p
}

#[test]
fn headers_are_120_bytes_and_entry_follows_them() {
    let p = with_headers();
    assert_eq!(p.code.len(), 120);
    assert_eq!(&p.code[0..4], &[0x7f, b'E', b'L', b'F']);
    assert_eq!(&p.code[24..32], &[0x78, 0, 0, 0, 0, 0, 0, 0]);
    assert_eq!(&p.code[64..72], &[1, 0, 0, 0, 7, 0, 0, 0]);
}

#[test]
fn hello_world_is_167_bytes() {
    let text = "static message = \"Hello, World!\\n\"\n@syscall(eax = 1, edi = 1, rsi = message, edx = @len(message))\n@syscall(eax = 60, edi ^= edi) // EXIT_SUCCESS\n";
    let p = Program::parse_source(text, vec![], vec![]).unwrap();
    assert_eq!(p.code.len(), 167);
    assert_eq!(&p.code[96..104], &[167, 0, 0, 0, 0, 0, 0, 0]);
    assert_eq!(&p.code[104..112], &[167, 0, 0, 0, 0, 0, 0, 0]);
    assert_eq!(&p.code[153..167], b"Hello, World!\n");
}

#[test]
fn readme_register_example_assembles() {
    let text = "rax = 34\nrdx = rax + 5\nrdx--\nrax = rdx * 4 - 9\nrcx = rax + rdx\n";
    assert!(Program::parse_source(text, vec![], vec![]).is_ok());
}

#[test]
fn readme_print_u64_assembles() {
    let text = "function print_u64() {
	@set_flags(rax & rax)
	{
		break if !/zero
		static zero_string = \"0\\n\"
		@syscall(rax = 1, rdi = 1, rsi = zero_string, rdx = @len(zero_string))
		return
	}

	rcx = 10
	rsi = rsp - 1
	rsi[u8] = \"\\n\"

	{
		@set_flags(rax & rax)
		break if /zero

		rdx = 0
		@unsigned_divmod(rdx:rax, rcx)

		dl += \"0\"
		rsi--
		*rsi = dl

		continue
	}

	rdx = rsp
	rdx -= rsi
	@syscall(rax = 1, rdi = 1)

	return
}
";
    assert!(Program::parse_source(text, vec![], vec![]).is_ok());
}

#[test]
fn readme_memory_example_assembles() {
    let text = "function allocate_memory() {
	@syscall(rax = 9, rdi = 0, rdx = 3, r10 = 0x22, r8 = -1, r9 = 0) // mmap
	@set_flags(rax & rax)
	goto fail if /sign
	return

	fail:
	static allocation_error = \"memory allocation failed!\\n\"
	@syscall(rax = 1, rdi = 1, rsi = allocation_error, rdx = @len(allocation_error))
	trap
}

function free_memory() {
	@syscall(rax = 11) // munmap
	return
}
";
    assert!(Program::parse_source(text, vec![], vec![]).is_ok());
}

#[test]
fn forward_goto_is_filled_in() {
    let text = "function main() {\ngoto end\nrax++\nend:\nreturn\n}\n";
    let p = Program::parse_source(text, vec![], vec![]).unwrap();
    assert_eq!(&p.code[120..], &[0xe9, 0x03, 0, 0, 0, 0x48, 0xff, 0xc0, 0xc3]);
    assert_eq!(&p.code[96..104], &[129, 0, 0, 0, 0, 0, 0, 0]);
}

#[test]
fn call_to_function_is_filled_in() {
    let text = "function f() {\nreturn\n}\nf()\n";
    let p = Program::parse_source(text, vec![], vec![]).unwrap();
    // call rel32: from the end of the call (126) back to f (120).
    assert_eq!(&p.code[120..], &[0xc3, 0xe8, 0xfa, 0xff, 0xff, 0xff]);
}

#[test]
fn break_reaches_end_of_block() {
    let mut p = Program::new();
    p.parse_line("{").unwrap();
    p.parse_line("break").unwrap();
    p.parse_line("rax++").unwrap();
    p.parse_line("}").unwrap();
    assert_eq!(p.code, vec![0xe9, 0x03, 0, 0, 0, 0x48, 0xff, 0xc0]);
    assert!(p.blocks.is_empty());
}

#[test]
fn continue_jumps_back_to_block_start() {
    let mut p = Program::new();
    p.parse_line("{").unwrap();
    p.parse_line("rax++").unwrap();
    p.parse_line("continue").unwrap();
    assert_eq!(p.code, vec![0x48, 0xff, 0xc0, 0xeb, 0xfb]);
    // the jump ends at 5 and lands on 0
    assert_eq!(5 + (p.code[4] as i8) as i64, 0);
}

#[test]
fn braces_give_the_program_back() {
    let mut p = Program::new();
    p.parse_line("rax++").unwrap();
    let before = p.code.clone();
    p.parse_line("{").unwrap();
    assert_eq!(p.blocks.len(), 1);
    p.parse_line("}").unwrap();
    assert_eq!(p.code, before);
    assert!(p.blocks.is_empty());
}

#[test]
fn label_cannot_be_declared_twice() {
    let mut p = Program::new();
    p.parse_global(b"here:").unwrap();
    assert_eq!(text(p.parse_global(b"here:").unwrap_err()), "the identifier here is already defined");
    assert!(matches!(p.parse_global(b"function here() {"), Err(AsmError::Quoting(_))));
}

#[test]
fn static_name_is_taken() {
    let mut p = Program::new();
    p.parse_global(b"static x = 5").unwrap();
    assert_eq!(text(p.parse_global(b"static x = 6").unwrap_err()), "the identifier x is already defined");
    assert!(matches!(p.parse_global(b"x:"), Err(AsmError::Quoting(_))));
}

#[test]
fn names_that_cannot_be_declared() {
    let mut p = Program::new();
    assert!(p.parse_global(b"rax:").is_err());
    assert!(p.parse_global(b"goto:").is_err());
    assert!(p.parse_global(b"9lives:").is_err());
    assert!(p.parse_global(b"static = 5").is_err());
    assert!(p.parse_global(b"static y").is_err());
    assert!(p.parse_global(b"function g {").is_err());
}

#[test]
fn len_reads_the_static() {
    let mut p = Program::new();
    p.parse_global(b"static msg = \"abc\"").unwrap();
    assert!(matches!(p.try_resolve_imm(b"@len(msg)"), Ok(Some(ImmediateOf::ImmU64(3)))));
    assert!(p.try_resolve_imm(b"@len(other)").is_err());
    p.parse_line("rdx = @len(msg)").unwrap();
    assert_eq!(p.code, vec![0x48, 0xc7, 0xc2, 0x03, 0, 0, 0]);
}

#[test]
fn static_holds_the_value_bytes() {
    let mut p = Program::new();
    p.parse_global(b"static v = -2").unwrap();
    p.parse_global(b"static w = 0x1234").unwrap();
    assert_eq!(p.globals[0].data, vec![0xfe]);
    assert_eq!(p.globals[1].data, vec![0x34, 0x12]);
}

#[test]
fn statics_follow_the_code_and_references_reach_them() {
    let text = "static a = \"xy\"\nrsi = a\n";
    let p = Program::parse_source(text, vec![], vec![]).unwrap();
    // lea rsi, [rip + disp32]: 48 8d 35 disp32, ending at 127; the static is at 127.
    assert_eq!(&p.code[120..123], &[0x48, 0x8d, 0x35]);
    assert_eq!(&p.code[123..127], &[0, 0, 0, 0]);
    assert_eq!(&p.code[127..], b"xy");
    assert_eq!(p.code.len(), 129);
}

#[test]
fn float_literals_take_their_given_bits() {
    let mut p = Program::new();
    p.define_f64("1.5", 0x3ff8_0000_0000_0000);
    p.parse_line("rax = @f64(1.5)").unwrap();
    assert_eq!(p.code, vec![0x48, 0xb8, 0, 0, 0, 0, 0, 0, 0xf8, 0x3f]);
    assert!(p.parse_line("rax = @f64(2.5)").is_err());
    p.define_f32("2.0", 0x4000_0000);
    p.parse_line("eax = @f32(2.0)").unwrap();
}

#[test]
fn errors_are_reported_by_kind_and_line() {
    let mut p = Program::new();
    assert!(!matches!(p.parse_line("rax = nonsense value"), Ok(()) | Err(AsmError::Internal(_))));
    assert!(matches!(p.parse_line("}"), Err(AsmError::Invalid(_))));
    let mut q = Program::new();
    assert!(matches!(q.parse_line("function missing() {"), Err(AsmError::Internal(_))));
    let e = Program::parse_source("rax++\nnot an instruction\n", vec![], vec![]).err().unwrap();
    assert_eq!(e.line, 2);
    assert!(!matches!(e.error, AsmError::Internal(_)));
    let e = Program::parse_source("{\nrax++\n", vec![], vec![]).err().unwrap();
    assert_eq!(e.line, 0);
    assert!(matches!(e.error, AsmError::Invalid(_)));
}

#[test]
fn finalize_refuses_short_code() {
    let mut p = Program::new();
    p.parse_line("rax++").unwrap();
    assert!(matches!(p.finalize(), Err(AsmError::Internal(_))));
}

#[test]
fn comments_and_blank_lines_are_skipped() {
    let text = "// nothing here\n\r\n   \nrax++ // count\r\n";
    let p = Program::parse_source(text, vec![], vec![]).unwrap();
    assert_eq!(&p.code[120..], &[0x48, 0xff, 0xc0]);
}

#[test]
fn static_names_are_kept_as_written() {
    let p = Place::parse("*msg").unwrap();
    match p {
        PlaceOf::RipRelative(name, _, _) => assert_eq!(name, "msg"),
        _ => panic!("expected a static"),
    }
    let q = Place::parse("buf[8][u32]").unwrap();
    match q {
        PlaceOf::RipRelative(name, _, _) => assert_eq!(name, "buf"),
        _ => panic!("expected a static"),
    }
}

#[test]
fn trimming_twice_is_trimming_once() {
    let s: &[u8] = b" \t x y \xc2\xa0";
    assert_eq!(trim(trim(s)), trim(s));
    assert_eq!(trim(s), b"x y");
}

#[test]
fn register_compatibility_is_symmetric() {
    assert!(!Register::Ah.compatible_with(Register::Spl));
    assert!(!Register::Spl.compatible_with(Register::Ah));
    assert!(Register::Ah.compatible_with(Register::Al));
    assert!(Register::R8b.compatible_with(Register::Sil));
}

#[test]
fn modrm_fields_read_back() {
    let b = Register::get_modrm_reg_reg(Register::Rcx, Register::R10);
    assert_eq!(b >> 6, 3);
    assert_eq!((b >> 3) & 7, 2);
    assert_eq!(b & 7, 1);
}

#[test]
fn function_calls_are_recognised() {
    assert_eq!(parse_function_call(b"foo(rax = 1)"), Some((&b"foo"[..], &b"rax = 1"[..], false)));
    assert_eq!(parse_function_call(b"(rax)()"), Some((&b"rax"[..], &b""[..], true)));
    assert_eq!(parse_function_call(b"x)(y)"), None);
    assert_eq!(parse_function_call(b"1x(y)"), None);
}

#[test]
fn indirect_call_through_register() {
    let mut p = Program::new();
    p.parse_line("(rax)(edi = 3)").unwrap();
    assert_eq!(p.code, vec![0xbf, 0x03, 0, 0, 0, 0xff, 0xd0]);
    assert!(p.parse_line("(eax)()").is_err());
}

#[test]
fn builtin_string_instructions() {
    let mut p = Program::new();
    p.parse_line("@fill_u64(rcx = 8)").unwrap();
    assert_eq!(p.code, vec![0x48, 0xc7, 0xc1, 0x08, 0, 0, 0, 0xf3, 0x48, 0xab]);
    let mut p = Program::new();
    p.parse_line("@compare_u16()").unwrap();
    assert_eq!(p.code, vec![0x66, 0xf3, 0xa7]);
    assert!(p.parse_line("@copy_u8() atomically").is_err());
    assert!(p.parse_line("@unknown()").is_err());
}

#[test]
fn lea_of_a_label() {
    let mut p = Program::new();
    p.parse_global(b"spot:").unwrap();
    p.parse_line("rdi = spot").unwrap();
    assert_eq!(p.code, vec![0x48, 0x8d, 0x3d, 0, 0, 0, 0]);
    assert_eq!(p.label_refs, vec![(0, 7, 7)]);
}

#[test]
fn readme_statics_assemble() {
    let text = "static thing1 = 0x1234\nstatic thing2 = @f32(3.54354)\nstatic thing3 = -5\nstatic thing4 = \"hi\\n\"\nthing3[u16]++\n@negate(thing1[u8])\n";
    let f32s = vec![(b"3.54354".to_vec(), 3.54354f32.to_bits())];
    let p = Program::parse_source(text, vec![], f32s).unwrap();
    // two instructions of 7 and 6 bytes, then the statics' 2 + 4 + 1 + 3 bytes
    assert_eq!(p.code.len(), 120 + 7 + 6 + 10);
    assert_eq!(&p.code[133..135], &[0x34, 0x12]);
    assert_eq!(&p.code[135..139], &3.54354f32.to_bits().to_le_bytes());
    assert!(Program::parse_source(text, vec![], vec![]).is_err());
}

#[test]
fn lea_of_a_scaled_index_without_base() {
    let mut p = Program::new();
    p.parse_line("rax = rdx * 4 - 9").unwrap();
    assert_eq!(p.code, vec![0x48, 0x8d, 0x04, 0x95, 0xf7, 0xff, 0xff, 0xff]);
    let mut p = Program::new();
    p.parse_line("r9 = r12 * 8").unwrap();
    assert_eq!(p.code, vec![0x4e, 0x8d, 0x0c, 0xe5, 0, 0, 0, 0]);
}

#[test]
fn register_names_read_back() {
    for r in Register::all() {
        let name = r.name_bytes();
        assert_eq!(Register::from_name(&name), Some(r));
        let text = String::from_utf8(name).unwrap();
        assert_eq!(text.parse::<Register>(), Ok(r));
        assert!(Place::parse(&text).is_ok());
    }
    assert!("rxx".parse::<Register>().is_err());
}

#[test]
fn lines_only_append_except_closing_braces() {
    let mut p = Program::new();
    p.parse_line("{").unwrap();
    p.parse_line("break if /zero").unwrap();
    let lines = ["rax = 5", "rcx ^= rcx", "<- rbx", "@swap(rax, rbx)", "rdx = rax * 3"];
    for line in lines {
        let before = p.code.clone();
        p.parse_line(line).unwrap();
        assert!(p.code.len() > before.len());
        assert_eq!(&p.code[..before.len()], &before[..]);
    }
    let before = p.code.clone();
    p.parse_line("}").unwrap();
    assert_eq!(p.code.len(), before.len());
    assert_eq!(&p.code[6..], &before[6..]);
    // the conditional break (0x0f 0x84 rel32) now jumps to the end of the block
    let rel = i32::from_le_bytes([p.code[2], p.code[3], p.code[4], p.code[5]]);
    assert_eq!(6 + rel as usize, p.code.len());
}

#[test]
fn casts_widen_consistently() {
    let i: ImmediateOf<Vec<u8>> = ImmediateOf::Imm8(-3);
    assert_eq!(i.cast_i8().unwrap(), -3);
    assert_eq!(i.cast_i16().unwrap(), -3);
    assert_eq!(i.cast_i32().unwrap(), -3);
    assert_eq!(i.cast_i64().unwrap(), -3);
    let u: ImmediateOf<Vec<u8>> = ImmediateOf::ImmU16(200);
    assert_eq!(u.strict_cast_u8().unwrap(), 200);
    assert_eq!(u.cast_u8().unwrap(), 200);
    assert_eq!(u.cast_u32().unwrap(), 200);
    assert_eq!(u.cast_u64().unwrap(), 200);
    assert!(u.cast_i8().is_err());
    let big: ImmediateOf<Vec<u8>> = ImmediateOf::ImmU64(1 << 40);
    assert!(big.cast_i32().is_err());
    assert_eq!(big.cast_i64().unwrap(), 1 << 40);
    assert_eq!(big.cast_unsized(), vec![0, 0, 0, 0, 0, 1, 0, 0]);
}

#[test]
fn readme_indexing_examples() {
    for line in ["rdx = *rax", "rdx = rax[34]", "rdx = rax[rcx * 4 - 35]", "rdx = rax[-1]"] {
        let mut p = Program::new();
        assert!(p.parse_line(line).is_ok(), "{line}");
    }
    for line in ["rdx = rax[rcx + rbx]", "rdx = rax[rcx * 3]"] {
        let mut p = Program::new();
        assert!(p.parse_line(line).is_err(), "{line}");
    }
}

#[test]
fn scaled_index_registers() {
    assert!(matches!(parse_multiplier_and_register("rcx * 4"), Ok((Scale::Four, Register::Rcx))));
    assert!(matches!(parse_multiplier_and_register("8 * r9"), Ok((Scale::Eight, Register::R9))));
    assert!(matches!(parse_multiplier_and_register("rax << 3"), Ok((Scale::Eight, Register::Rax))));
    assert!(matches!(parse_multiplier_and_register("rdi"), Ok((Scale::One, Register::Rdi))));
    assert!(parse_multiplier_and_register("rcx * 3").is_err());
    assert!(parse_multiplier_and_register("ecx * 2").is_err());
    assert!(parse_multiplier_and_register("rcx >> 1").is_err());
}

#[test]
fn stripping_comments_twice_is_stripping_once() {
    for line in [
        "rax++ // count",
        "static s = \"a // b\" // c",
        "@raw(\"\\\"//\") // d",
        "no comment",
        "a/b // c // d",
    ] {
        let once = strip_comments(line);
        assert_eq!(strip_comments(once), once);
        assert!(line.starts_with(once));
    }
    assert_eq!(strip_comments("a/b // c // d"), "a/b ");
}

#[test]
fn compare_u64_is_repe_cmpsq() {
    let mut p = Program::new();
    p.parse_line("@compare_u64()").unwrap();
    assert_eq!(p.code, vec![0xf3, 0x48, 0xa7]);
}

#[test]
fn register_zero_jumps_are_short_only() {
    assert_eq!(jmp_opcode(b"if /rcx_zero", false).ok(), Some((None, 0xe3)));
    assert_eq!(jmp_opcode(b"if /ecx_zero", false).ok(), Some((Some(0x67), 0xe3)));
    assert!(jmp_opcode(b"if /rcx_zero", true).is_err());
    assert!(jmp_opcode(b"if /ecx_zero", true).is_err());
    assert_eq!(jmp_opcode(b"if /zero", true).ok(), Some((Some(0x0f), 0x84)));
    assert_eq!(jmp_opcode(b"", false).ok(), Some((None, 0xeb)));
    assert_eq!(jmp_opcode(b"", true).ok(), Some((None, 0xe9)));
    assert_eq!(jmp_opcode(b"if /zero", false).ok(), Some((None, 0x74)));
    assert_eq!(jmp_opcode(b"if !/less_or_equal", true).ok(), Some((Some(0x0f), 0x8f)));
    assert!(jmp_opcode(b"if /bogus", false).is_err());
}

#[test]
fn continue_on_register_zero_lands_on_block_start() {
    let mut p = Program::new();
    p.parse_line("{").unwrap();
    p.parse_line("continue if /rcx_zero").unwrap();
    assert_eq!(p.code, vec![0xe3, 0xfe]);
    let mut p = Program::new();
    p.parse_line("{").unwrap();
    p.parse_line("continue if /ecx_zero").unwrap();
    assert_eq!(p.code, vec![0x67, 0xe3, 0xfd]);
}

#[test]
fn long_continue_lands_on_block_start() {
    let mut p = Program::new();
    p.parse_line("{").unwrap();
    for _ in 0..100 {
        p.parse_line("pause").unwrap();
    }
    p.parse_line("continue").unwrap();
    assert_eq!(p.code.len(), 205);
    assert_eq!(p.code[200], 0xe9);
    let d = i32::from_le_bytes([p.code[201], p.code[202], p.code[203], p.code[204]]);
    assert_eq!(d, -205);
    p.parse_line("continue if /zero").unwrap();
    assert_eq!(&p.code[205..207], &[0x0f, 0x84]);
    let d = i32::from_le_bytes([p.code[207], p.code[208], p.code[209], p.code[210]]);
    assert_eq!(211 + d as i64, 0);
}

#[test]
fn long_register_zero_continue_is_refused() {
    let mut p = Program::new();
    p.parse_line("{").unwrap();
    for _ in 0..100 {
        p.parse_line("pause").unwrap();
    }
    assert!(p.parse_line("continue if /rcx_zero").is_err());
    assert_eq!(p.code.len(), 200);
}

#[test]
fn accumulator_immediates_keep_the_operation() {
    let mut p = Program::new();
    p.parse_line("eax += 1000").unwrap();
    assert_eq!(p.code, vec![0x05, 0xe8, 0x03, 0x00, 0x00]);
    let mut p = Program::new();
    p.parse_line("eax -= 1000").unwrap();
    assert_eq!(p.code, vec![0x2d, 0xe8, 0x03, 0x00, 0x00]);
}

#[test]
fn set_flags_with_an_immediate_is_test() {
    let mut p = Program::new();
    p.parse_line("@set_flags(eax & 5)").unwrap();
    assert_eq!(p.code, vec![0xa9, 0x05, 0x00, 0x00, 0x00]);
    let mut p = Program::new();
    p.parse_line("@set_flags(rbx & 5)").unwrap();
    assert_eq!(p.code, vec![0x48, 0xf7, 0xc3, 0x05, 0x00, 0x00, 0x00]);
    let mut p = Program::new();
    p.parse_line("@set_flags(bl & 5)").unwrap();
    assert_eq!(p.code, vec![0xf6, 0xc3, 0x05]);
}

#[test]
fn multiply_by_a_constant_picks_the_immediate_width() {
    let mut p = Program::new();
    p.parse_line("rcx = rax * 200").unwrap();
    assert_eq!(p.code, vec![0x48, 0x69, 0xc8, 0xc8, 0x00, 0x00, 0x00]);
    let mut p = Program::new();
    p.parse_line("rcx = rax * 100").unwrap();
    assert_eq!(p.code, vec![0x48, 0x6b, 0xc8, 0x64]);
}

#[test]
fn swap_with_the_accumulator_is_symmetric() {
    let mut p = Program::new();
    p.parse_line("@swap(rax, r8)").unwrap();
    assert_eq!(p.code, vec![0x49, 0x90]);
    let mut p = Program::new();
    p.parse_line("@swap(r8, rax)").unwrap();
    assert_eq!(p.code, vec![0x49, 0x90]);
}

#[test]
fn refused_lines_leave_the_program_unchanged() {
    let mut p = Program::new();
    p.parse_line("rax = 1").unwrap();
    let before = p.code.clone();
    assert!(p.parse_line("@syscall(eax = 60, edi = nowhere)").is_err());
    assert_eq!(p.code, before);
    assert!(p.parse_line("goto nowhere").is_err());
    assert_eq!(p.code, before);
    assert!(p.parse_line("rax += 1 atomically").is_err());
    assert_eq!(p.code, before);
    assert!(p.parse_line("}").is_err());
    assert_eq!(p.code, before);
    assert!(p.global_refs.is_empty() && p.label_refs.is_empty() && p.blocks.is_empty());
}

#[test]
fn string_escapes_add_one_byte_each() {
    assert_eq!(parse_string("  \"a\\nb\"\t").unwrap(), b"a\nb");
    assert_eq!(
        parse_string("\"\\t\\r\\0\\\\\\\"\\x41\\x7f\"").unwrap(),
        vec![0x09, 0x0d, 0x00, 0x5c, 0x22, 0x41, 0x7f]
    );
    assert!(parse_string("\"\\q\"").is_err());
    assert!(parse_string("\"\\x4\"").is_err());
    assert!(parse_string("\"a\tb\"").is_err());
    assert!(parse_string("\"a\" b").is_err());
    assert!(parse_string("\"a\\\"").is_err());
}

#[test]
fn comments_are_cut_only_at_two_slashes() {
    assert_eq!(strip_comments("rax = 1 / 2"), "rax = 1 / 2");
    assert_eq!(strip_comments("rax++ // x"), "rax++ ");
    assert_eq!(strip_comments("@raw(\"//\") // x"), "@raw(\"//\") ");
}

#[test]
fn finalize_refuses_an_open_block_and_keeps_the_program() {
    let mut p = with_headers();
    p.parse_line("{").unwrap();
    let before = p.code.clone();
    assert!(matches!(p.finalize(), Err(AsmError::Invalid(_))));
    assert_eq!(p.code, before);
    assert_eq!(p.blocks.len(), 1);
    p.parse_line("}").unwrap();
    assert!(p.finalize().is_ok());
}

#[test]
fn refusals_name_the_offending_text() {
    let mut p = Program::new();
    p.parse_global(b"here:").unwrap();
    assert_eq!(text(p.parse_line("goto nowhere").unwrap_err()), "`nowhere` is not defined as a label");
    assert_eq!(text(p.parse_line("rax = *ghost").unwrap_err()), "ghost is not defined");
    assert_eq!(text(p.parse_line("rax = @len(ghost)").unwrap_err()), "ghost is not defined as a static");
    assert_eq!(text(p.parse_line("@bogus(rax)").unwrap_err()), "invalid command: bogus");
    assert_eq!(text(p.parse_line("ghost()").unwrap_err()), "ghost is not defined");
    assert_eq!(
        text(p.parse_line("goto here if /bogus").unwrap_err()),
        "unrecognized condition: if /bogus; allowed values: if [/carry, !/carry, /parity, !/parity, /zero, !/zero, /sign, !/sign, /overflow, !/overflow, /less, !/less, /less_or_equal, !/less_or_equal, /carry_or_zero, !/carry_or_zero, /rcx_zero, /ecx_zero]"
    );
    assert_eq!(text(p.parse_line("@raw(\"a\\q\")").unwrap_err()), "@raw() must contain a valid string (invalid escape sequence: \\q)");
    assert!(p.code.is_empty());
}

#[test]
fn string_refusals_say_what_is_wrong() {
    assert_eq!(parse_string("abc").unwrap_err(), "missing leading quotation mark");
    assert_eq!(parse_string("\"abc").unwrap_err(), "missing closing quotation mark");
    assert_eq!(parse_string("\"a\"b\"").unwrap_err(), "unexpected quotation mark within string");
    assert_eq!(parse_string("\"\\x4g\"").unwrap_err(), "bad hex string");
    assert_eq!(parse_string("\"\\q\"").unwrap_err(), "invalid escape sequence: \\q");
    assert_eq!(parse_string("\"\\\u{e9}\"").unwrap_err(), "invalid escape sequence: \\\u{c3}");
    assert_eq!(parse_string("\"a\tb\"").unwrap_err(), "illegal control character: 0x9");
    assert_eq!(parse_string("\"a\u{1b}b\"").unwrap_err(), "illegal control character: 0x1b");
}

#[test]
fn absolute_address_goes_through_the_sib_byte() {
    let mem: Place = PlaceOf::Memory(
        EffectiveAddress { base: None, index: None, disp: Some(Displacement::Dword(0x1000)) },
        Some(Size::Qword),
    );
    let mut p = Program::new();
    p.binary_inner(0x8b, false, mem, PlaceOf::Reg64(Register::Rax), false, Size::Qword).unwrap();
    assert_eq!(p.code, vec![0x48, 0x8b, 0x04, 0x25, 0x00, 0x10, 0x00, 0x00]);
}

#[test]
fn immediates_are_little_endian_at_their_width() {
    assert_eq!(ImmediateOf::Imm16(0x1234).cast_unsized(), vec![0x34, 0x12]);
    assert_eq!(ImmediateOf::Imm8(-1).cast_unsized(), vec![0xff]);
    assert_eq!(ImmediateOf::ImmU32(1).cast_unsized(), vec![1, 0, 0, 0]);
    assert_eq!(ImmediateOf::Unsized(vec![7, 8, 9]).cast_unsized(), vec![7, 8, 9]);
}
