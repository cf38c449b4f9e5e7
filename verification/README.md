# jazzlight

The bytecode formats, basic-block builder, label resolution, hashing and
garbage collector of the JazzLight virtual machines, written in Verus with
their contracts proved.

## Layout

- `src/bytes.rs` – little-endian integers and UTF-8 text, through byteorder.
- `src/lhm.rs`, `src/fnv_map.rs` – hashlink's `LinkedHashMap` and fnv's
  `FnvHashMap` as the library uses them.
- `src/labels.rs` – label tables shared by the code buffers.
- `src/intern.rs` – tables that give each distinct global an id (interning
  twice gives the same id).
- `src/operators.rs` – the operator symbols the compilers lower to single
  instructions.
- `src/vm/` – the stack machine: opcodes, bytecode writer and reader (with the
  law that reading gives back what was written), FNV hashing, value
  conversions, the syntax tree and its compiler (what compiling an
  expression does to the generator's state is stated exactly), the code
  generator's code buffer with its globals and the module it makes, and the
  mark-and-sweep collector (a collection keeps exactly the objects reachable
  from rooted ones, and a rooted object's handle stays valid).
- `src/jazz/` – the Jazz machine: opcodes, module loader, bytecode emitter
  (with its read-back law), the compiler's code buffer (labels, globals,
  operators, reads and writes of places) and the integer/byte builtins.
- `src/light/` – JazzLight: opcodes, basic blocks, the syntax tree and its
  compiler (what compiling an expression does to the code buffer, the
  constants and the symbols is stated exactly; reading an included file is
  left to the caller), the program's layout (functions before the code,
  each function's constant given its entry address), the compiler's code
  buffer, the symbol table, the
  bytecode writer and reader, with the law that a
  written module reads back (its constants as they were, its instructions
  with their names interned into the reader's symbols) whenever its counts
  and lengths fit the format and no function carries a setter or getter
  flag, which the format does not hold.
- `src/ngc.rs` – address alignment of the copying collector.
- `src/cli.rs` – the command line's options.
- `app/main.rs` – a command-line tool that loads a JazzLight bytecode file and
  prints its instructions, constants, symbols and basic blocks.
- `tests/` – tests of the library on concrete values.
