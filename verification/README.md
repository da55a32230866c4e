# nix-options-doc

Generates documentation for NixOS module options by reading Nix source as
syntax (with rnix), without evaluating it, and writes it as Markdown, HTML,
JSON or CSV. Source and releases: https://github.com/calebstewart/nix-options-doc

## Layout

- `src/` — the library, written and proved with Verus:
  - `syntax.rs` — the syntax tree handed over by rnix, as plain values;
  - `nix_call.rs`, `types.rs`, `parser.rs` — alias and `let` resolution,
    type descriptions, and the walk that finds `mkOption` declarations,
    `mkIf` conditions, submodules and rename/removal shims;
  - `markup.rs`, `text.rs`, `utils.rs` — description cleanup, admonitions,
    `${name}` replacements, anchors, link sanitising, code spans;
  - `lib.rs` — filtering, merging of options declared more than once,
    sorting, and `generate_doc`;
  - `generate/` — Markdown, HTML (comrak for descriptions) and CSV output.
- `app/` — the command: argument parsing (clap), cloning (gix), directory
  walking (walkdir, rayon), logging, JSON output (serde), file output.
- `tests/` — tests of the library.

The executable functions in `src/` carry contracts and are proved
against them; the calls into outside crates stand behind small trusted
wrappers whose contracts say what the crate does, as far as its source
shows it.
