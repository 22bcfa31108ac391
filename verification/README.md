# sys_switch

A next-boot system switcher for Linux (`efibootmgr`, with `grub-reboot` as
fallback) and Windows (`bcdedit`), with a command line and an egui window.

- `src/` is the library, verified with Verus: reading the boot managers'
  output into boot entries, deciding which tool to run with which arguments,
  the messages and exit codes, the text table, the window's state machine and
  the privilege elevation steps. Regular expressions are matched by the
  `regex` crate and GBK output decoded by `encoding_rs`; their results are
  named in the specifications.
- `app/` is the program around it: argument parsing (clap), running the
  tools, privilege checks, JSON output and the window.
- `tests/` runs the library on sample tool output.
