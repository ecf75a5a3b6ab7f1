# sysview

A terminal dashboard of the machine: graphics card, processor, memory,
disks and operating system.

- `src/` is the verified library: the text of each panel, the parsing of
  what Linux and Windows report (the `lspci` output, the `modes` and
  `mem_info_vram_total` files, `PSModulePath`, the registry's PowerShell
  versions), the choice of the shell's name, and the dashboard's key
  handling. `src/text.rs` holds the character-sequence operations these
  rest on, each stated over `Seq<char>`.
- `app/` is the program around it: the event loop, the drawing with
  `ratatui`, and the reads from the system (processes, files, WMI, the
  registry). The processor panel stays there, as its figures are floating
  point.
- `tests/` runs the library on concrete values, and holds its string
  operations against those of `std`.
