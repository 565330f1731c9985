# domain

A verified library for editing lists of UI elements against a configuration of element
schemas and unit groups, with the programs that use it.

## Layout

- `src/` — the library, checked by Verus:
  - `models/` — lists, lines and fields; element schemas; unit groups and exact unit
    conversion; typed lines (`Container`, `Button`, `TextField`) read from raw lines;
    the object tracks of recorded timesteps.
  - `utility/` — reading and validating the fields of a line; turning a line into its
    typed form for calculation.
  - `dto/` — the saved lists file and the configuration file, with conversions.
  - `schema.rs` — checking elements against key schemas.
  - `key_data.rs` — the editable fields of a line and their validation.
  - `app_state.rs`, `app_state/` — the editor as a state machine: each action changes the
    state and returns the effects the window has to carry out; `app_state/laws.rs` holds
    the properties proved across actions.
  - `derive_syntax.rs`, `literal.rs` — reading attribute syntax and string literals of the
    derive macros' input; `derive_expand.rs`, `unit_enum_expand.rs` — the code the derive
    macros write for typed lines and for unit enums.
  - `lists_schema.rs` — checking a lists file against its JSON schema (through
    `jsonschema`) and the report of its violations.
  - `parse.rs` — typed values read from text and printed back.
  - `str_map.rs`, `text.rs` — an insertion-ordered string map and text helpers.
- `tests/` — tests of the library.
- `app/` — the programs: file I/O, JSON (de)serialization, the calculation worker
  thread, the editor loop that performs the effects, and the flight simulations and
  graph projection, which work on floating-point values.
