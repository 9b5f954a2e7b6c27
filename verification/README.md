# tweakers

The logic of Tweakers, a system tuning and maintenance tool for Linux
desktops, as a library verified with Verus, and a small command-line
program around it.

## Layout

- `src/` — the verified library.
  - `text.rs`: text operations (trimming, splitting into words, lines and
    fields, searching, decimal numbers) with their specifications and laws.
  - `tweaks/`: reading kernel, CPU, GPU, memory, storage, network and power
    settings from the text of sysfs/procfs files and tool output, and the
    sysctl and i915 configuration files that applying them writes.
  - `sudo_handler.rs`: the plans of privileged steps for applying tweaks,
    resetting them and cleaning the system.
  - `cleaners.rs`, `backup.rs`, `benchmark.rs`: the commands, paths and
    output parsing of the cleaner, the rclone backup and the benchmarks.
  - `czkawka.rs`, `cosmic_apps.rs`: finding the czkawka tools and the COSMIC
    companion apps, scan modes and scan output.
  - `cosmic_themes.rs`: reading the cosmic-themes.org listing (with
    `scraper`), download URLs and safe archive entry names.
  - `resource_monitor.rs`: CPU counters and memory use from `/proc`.
  - `ui.rs`: the decisions behind the interface: the pending privileged
    operation, selector positions, quick profiles, scan routing and status
    messages.
- `tests/` — tests of the library on concrete values.
- `app/` — the program: file and process I/O, the network, sudo, and the
  floating-point figures (sizes, percentages, benchmark scores).
