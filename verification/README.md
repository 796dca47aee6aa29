# lianli

A toolkit for Lian Li fans, RGB controllers, AIO coolers and LCD panels,
whose logic is written in Verus and proved against its contracts.

Layout:

- `src/` — the verified library. Each module holds the executable code
  with its `requires`/`ensures`, the spec functions the contracts are
  stated over, and public proof functions (`law_*`) for properties that
  span several calls:
  - `turzx`: packet framing of TURZX panels (control records, frames,
    fragmentation of stream A);
  - `detect`, `hid_detect`, `desktop_display`, `binding`, `backends`: USB
    and HID discovery, stable device ids, port paths, the HID binding
    repair (as a step function from state and event to next state and
    action), the open/retry policies and which LCD controller drives a
    HID device of each family;
  - `ene6k77`, `hydroshift_lcd`, `tl_fan`: device models;
  - `sensors`, `sensor_list`, `sysfs`, `gpu_names`: the sensor model,
    discovery from kernel text files and helper program output, and the
    default sensor pickers;
  - `service`, `live_encoder`, `value_format`: streaming decisions, render
    pacing, encoder parameters and argument list, and value templates;
  - `gui_rgb`, `gui_fan`, `gui_lcd`: the GUI's edits of RGB effects, fan
    slot speeds, fan curves (add, remove, rename, command, removing a
    point) and LCD entries (add, remove, field edits); moving or adding a
    curve point rounds floating-point numbers and is not held here;
  - `widgets`: the fonts and sensor source of a custom LCD widget, and
    which loaded font a font reference resolves to;
  - `text`, `seq_facts`: character-level helpers and sequence facts.
- `tests/` — tests of the library on concrete values.
- `app/` — a small command-line program that reads the running system
  (sysfs, procfs, `lspci`, `nvidia-smi`) and prints what the library makes
  of it; file and process access and floating-point formatting live here.
