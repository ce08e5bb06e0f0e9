# certificate_manager

A small interactive manager for custom SSL/TLS certificates on Arch Linux based
systems: add certificate files to a private store, activate one of them as the
system's trust anchor (only one is ever active), deactivate it, or remove it for good.

- `src/` is the verified library:
  - `cert.rs`: the index of managed certificates (stable ids, at most one active) and
    its operations `add`, `activate`, `deactivate`, `remove`, `list`, each with the change
    of trust-anchor links that goes with it;
  - `laws.rs`: what holds of the index across operations and histories, and that the
    anchor links follow the active certificates;
  - `ui.rs`: certificate rows and boxed panels as coloured text segments;
  - `menu.rs`: the interactive menu as a state machine, with its laws;
  - `screen.rs`: what each menu state shows;
  - `fzf.rs`: decisions around the file picker;
  - `text.rs`: decimal rendering, repetition and trimming.
- `app/` is the program around it: the index file on disk, `sudo` calls on the trust
  anchors, `fzf`, and the terminal.
- `tests/` runs the library on concrete values.
