# thumed_helper

A terminal helper for the THU Med computational cluster: it checks and sets up
the environment (kubeconfig, kubectl, Helm, the lecture account, the cluster
and the chart repository), and creates, enters, forwards and removes a
student's RStudio pod.

The library under `src/` is written in Verus and verified: every public
function states what it returns in its contract (where the answer depends on
the platform the program was built for, as with `platform::is_windows`, what
holds on every platform), and the properties that span several calls, whole
runs of the tool setup and of the environment check among them, stand as
proof functions.

- `text` — operations on character sequences (trimming, lines, words,
  decimal numbers, replacement, ordering) with their specifications.
- `error`, `i18n` — the errors and every text of the interface in Chinese and
  English.
- `environment` — the lecture account (reading it from `kubectl config view`,
  saving and applying a context-bound override) and the order and
  prerequisites of the environment check.
- `tools` — platforms, release versions, download addresses, checksums, and
  the setup of a tool as a state machine: the library decides each step, the
  program does the work.
- `pod_handler` — the creation form, the Helm values, reading the startup
  state of a release, waiting for it, and the pod list.
- `tui` — the state of the interface and what every key does.
- `view` — what each screen reads, line by line.
- `cli` — the command-line grammar.
- `utils`, `platform` — command outcomes and executable names.

`app/main.rs` is the program around it: the terminal (crossterm, ratatui),
files, processes and downloads.
