# Not News, verified core

Not News turns a question into a durable graph of findings, source artifacts
and explicit relationships. This crate holds the logic of that program as a
library whose behaviour is stated in `requires`/`ensures` contracts and proved
with Verus.

- `src/` is the library. Each module opens with a note on what it decides.
  The event graph and its commands live in `domain/`; the research agent's
  launch environment, output protocol, ACP session and supervision decisions in
  `agent/`; voice capture and spoken notes in `audio/`; the Connections menu,
  the keyboard flows of the canvas and curation in `settings*`, `keys`,
  `curation_flow` and `research_session`; the Hermes profile's ownership rules
  in `profile`.
- Calls into outside crates (indexmap, base64, sha2, unicode-segmentation,
  zeroize and std's channels) stand behind small trusted wrappers whose doc
  comments say what each contract claims of the outside code.
- The credential vault, the executable probe, the profile's file system,
  directory creation for an isolated home, the research sources and the
  capture queue are traits that `app/` implements. The library reaches each
  through a recorded wrapper (`RecordedVault`, `RecordedProbe`,
  `RecordedFiles`, `RecordedDirectories`, `RecordedSources`,
  `RecordedQueue`) whose ghost log lists every request and reply, so that
  contracts say exactly what was asked and what followed.
- Laws that span several functions are public proof functions named `law_*`.
- `tests/` runs the library on concrete values.
- `app/` is the program around the library: command line, files, the
  credential vault, HTTP requests, child processes and the microphone.
