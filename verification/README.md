# rs-lc-3-vm

An LC-3 virtual machine. The library in `src/` is verified with Verus:

- `types`: addresses, registers and condition flags;
- `command`: instruction decoding (`Command::parse`, against the spec `decode`) and
  the assembly text of instructions;
- `memory`: the 65,536-word memory and image loading;
- `vm`: the machine; one step (`Vm::execute_instruction`) is specified by `step_spec`,
  trap routines hand their input and output to the caller;
- `laws`: properties that span the operations;
- `mem`, `regs`, `trap`, `enums`: standalone word memory, register file and trap tables;
- `text`: decimal and hexadecimal renderings.

`app/` is the command-line program: it reads the image file, runs the fetch-execute loop,
performs the trap routines' terminal input and output, and prints the debug trace.
