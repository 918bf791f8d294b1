# rackctl

A verified control-surface library for rack guitar processors, centred on the
Avid/Digidesign Eleven Rack, with the GX-700's pure helpers alongside. The
library is written in Verus: its functions carry contracts that Verus proves,
except the few wrappers around std, `directories` and `serde_json` calls,
whose contracts are trusted (and `config_root`, whose result depends on the
environment and has none).

## Layout

- `src/` — the verified library:
  - `param` — the Eleven Rack parameter catalog (amps, effects, global controls,
    stepped tables) and CC resolution; `lemma_catalog_well_formed` proves every
    CC is 7-bit and every effect control has one CC per slot.
  - `value`, `sysex`, `wire` — the five-byte value codec, the Digidesign `SysEx`
    frames, and the host messages (CC, Program Change, the store sequence, block
    and parameter writes, reply matching, change-report formatting).
  - `backup`, `tfx` — captured patch backups and the `.tfx` patch file parser.
  - `bank`, `device` — the management device interface with its in-memory mock,
    and the transport facade with its mock store.
  - `manage` — capture, restore with read-back verify, the patch directory,
    whole-bank scenes, preset copy and named MIDI CC, over any device.
  - `library` — the on-disk library conventions: safe file stems, locations and
    the saved-item envelope check.
  - `port` — when the host stops polling the unit's input (reply, drain and
    batch-scan waits) and the byte-log line for each transfer.
  - `listing` — the catalog listing and the per-parameter detail the command
    line prints, as lines of text.
  - `cli`, `gx700`, `gx700_gui`, `eleven_gui` — argument grammar, labels, tab
    keys and list reordering used by the frontends.
  - `search`, `text`, `error` — shared first-match search, string helpers and
    the error vocabulary.
- `tests/` — the test suite, run against the compiled library.
- `app/` — the `rackctl-eleven` command-line program: argument parsing, file
  I/O and JSON, printing.
