# novakeys

The verified core of NOVA Keys, an on-screen keyboard for Wayland: each
public function states in `requires` / `ensures` what it does, and Verus proves
the code against it.

## Layout

- `src/` — the verified library.
  - `layout/` — layout rules (rows, keys, widths, alternatives), key labels and
    Shift, and the names of the bundled layouts.
  - `language/` — layout discovery across configuration directories and the
    language manager: which layouts load, which one is current, the switcher.
  - `config/` — settings, their bounds, and the text of configuration files.
  - `input_detection.rs` — the input-method context: when output may reach an
    application, protocol chunks, control keys.
  - `ime/` — composition requests and results, candidate paging, the worker's
    session decisions, what each editing command does to a Japanese
    conversion or to Korean input, Korean key mapping, how engine state
    becomes a snapshot, and the dictionary-cache fingerprint.
  - `ui/` — the composition state between keyboard and engine worker (taking,
    merging and delivering output, held-back keys, language and mode
    transitions), key labels and commands, the composition bar and the
    language selector.
  - `service/`, `ipc.rs`, `cli.rs`, `status.rs` — control messages, their
    framing, and the status report.
  - `table.rs`, `text.rs` — a sorted string-keyed table and character helpers.
- `tests/` — tests of the library.
- `app/` — the program around the library: command line, reading files,
  the control socket, the Wayland input-method connection, a service that
  answers control messages, and the CJK engines' calls into their C
  libraries with the worker thread that runs them.

Run the program with `-m <command>` (for example `-m get-status` or
`-m set-language no`) to control a running instance.

The program has no on-screen keyboard window, and it bundles no layouts:
layouts are read from `layout-<code>.toml` files in the configuration
directories. The library holds the window's decisions (which keys, labels,
modes and controls it shows, and what a press does), and the CJK engine
worker in `app/` is what such a window would drive.
