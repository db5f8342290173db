# stt-core

The verified core of a speech-to-text desktop client that records audio,
uploads it to an ASR HTTP API, extracts the transcription with a JSONPath
query and pastes it into the focused window.

- `src/` is the library, verified with Verus: configuration rules, hotkey
  parsing and recording, audio interval normalization, voice activity
  segmentation, capture formats and WAV encoding, the microphone picker
  rows, conversion settings, the ASR request fields and response handling,
  clipboard and Unicode text delivery, the runtime's state machine, and the
  decisions of the floating window, the settings window and their themed
  scrollbars (as step functions from state and event to next state and
  action; the caller makes the window calls). Calls into `serde_json`,
  `serde_json_path` and `std::path` go through a few trusted wrappers whose
  contracts are documented where they are declared.
- `tests/` runs the library on concrete values.
- `app/` is the command-line program around it: argument parsing, the
  configuration file, and file mode (conversion checks, HTTP uploads with
  the library's retry decisions, cache handling). Recording, hotkeys and
  pasting need Windows APIs, so this program reports them as unsupported.

Public proof functions state the library's laws, for example that every
recordable hotkey reads back from the text the recorder writes
(`hotkey::round_trip::recorded_hotkey_reads_back`), that whitespace, case,
modifier order and aliases do not change a hotkey
(`hotkey::equivalence::equivalent_specs_parse_alike`), that the order of the
detected speech ranges does not change the converted ranges
(`intervals::detection_order_does_not_matter`) and that busy actions are
dropped rather than queued (`runtime::busy_actions_are_dropped`).
