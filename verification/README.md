# awsm

An assembler for a small x86-64 assembly language with a high-level look
(`rax = rdx * 4 - 9`, `@syscall(eax = 60, edi ^= edi)`, `goto end if /zero`),
producing a Linux ELF executable. The library is written in Verus: every
function states in its contract what it returns, and Verus proves it.

Layout:

- `src/text.rs`, `src/strings.rs`: byte-string helpers, string literals and comments.
- `src/registers.rs`, `src/place.rs`, `src/immediate.rs`, `src/opcodes.rs`: registers
  and their encoding fields, operands, constants, condition codes.
- `src/program.rs` and `src/program/`: the program being assembled — encoding of
  one- and two-operand instructions (`encode`), constants and address expressions
  (`immediates`), arithmetic and stack instructions (`instructions`), assignments
  (`assign`), calls and builtins (`builtins`), lines, blocks and jumps (`lines`), the
  ELF image and whole-text assembly (`output`), and properties that hold across
  operations (`laws`).
- `app/main.rs`: the command-line program (file input and output, and the bits of
  floating-point literals).
- `tests/`: tests of the library on concrete inputs.
