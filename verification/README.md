# sim_run_core

The core of the `sim` command-line bootloader, written in Verus: each
function carries a contract over a mathematical model, and Verus proves the
code against it.

## Layout

- `src/` — the verified library.
  - `args`, `boot`, `config`, `command`, `exit`, `bootstrap`: argument
    parsing into boot controls, the loaded-library envelope, help and version
    output, process exit codes, and boots from a supplied bootstrap envelope.
  - `symbol`, `source`, `receipt`, `reexport`, `load_plan`, `platform_bundle`:
    library symbols and source syntax, load receipts and the `cli/main`
    handoff, re-exports and their linking, default verb sources, the order of
    a boot's loads and the session that walks them, how one source is
    loaded, and the libraries whose
    configuration a boot discovers.
  - `version`, `crates_io`, `listing`, `git_registry`, `loopback`:
    crates.io-style version requirements and resolution against the local
    cache and registry artifacts, offline artifact listings in their order,
    git registry index rows, endpoint policy and artifact digests.
  - `manifest`, `native_loader`, `native_number`, `native_macro`,
    `introspect`: the manifest's expression form and its reading back, the
    native loader's guard checks and export bindings, the host side of
    native number domains and macros, and `--list` / `--inspect` output.
  - `loader_source`, `wasm_loader`: loader-defined source kinds and their
    payloads, static artifacts and their registry, and which sources the
    wasm loader takes.
  - `report`, `status_report`, `config_discovery`: JSON rendering of config
    expressions with secret redaction; config status, source and effective
    reports; and the order and outcomes of config discovery.
  - `device_host`, `device_options`: device host composition and route
    options.
- `tests/` — tests on concrete values, run against the compiled library.
- `app/` — process-facing code that Verus does not see: argument and
  environment input, the artifact cache on disk, HTTP fetches from a git
  registry, and conversions between kernel values and the library's
  models.

Laws of the library are public proof functions named `law_*`; they relate
several functions or state what every input satisfies.
