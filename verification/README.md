# winkey

Extracts the Windows product key that OEMs embed in the ACPI MSDM table.

- `src/` is the verified library:
  - `msdm.rs`: the MSDM table layout, `parse_table`, the checksum and its laws, the
    verbose report;
  - `key.rs`: the `XXXXX-XXXXX-XXXXX-XXXXX-XXXXX` key format, `ProductKey` and its laws;
  - `text.rs`: trimming of white space and NUL padding, UTF-8 lengths, ASCII case;
  - `format.rs`: numbers written in decimal and hexadecimal;
  - `decode.rs`: UTF-8 decoding through the standard library;
  - `error.rs`: `MsdmError` and the messages that tell each error;
  - `cli.rs`: command-line options and exit codes;
  - `platform.rs`: what the firmware hands over, the decisions around reading it,
    and the key it gives.
- `app/` is the command-line program: argument and file I/O, and the per-platform
  firmware readers (sysfs on Linux, `/dev/acpi` on FreeBSD, acpidump output on
  OpenBSD, the registry on Windows).
- `tests/` runs the library on concrete tables and keys.
