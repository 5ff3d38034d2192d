# miyu

The tool layer of a terminal assistant, written in Verus: every function in `src/`
carries a contract that Verus proves.

- `text` — characters, trimming, searching, lines and words, joining, replacing,
  decimal numbers, UTF-8 lengths, ordering.
- `token_estimate`, `agent::overflow` — token estimates of texts and conversations.
- `agent::tool_loop` — the decisions of a model/tool loop.
- `render::wait_spinner` — the frames of the wait spinner.
- `clipboard` — clipboard targets, text, pasted paths, images as data URLs, and the
  steps of a clipboard read.
- `tools::registry` — the tool registry (names stay unique).
- `tools::load_tools` — the on-demand tool catalogue and what `load_tools` loads.
- `tools::scripts` — script headers, the script directories, script tools.
- `tools::diagnostics` — the probe request, process matching, redaction and the
  checks of a diagnostic report.
- `tools::linux_game`, `tools::deep_diagnose`, `tools::report` — query
  normalisation, slugs, verdicts, page summaries and report clean-up.

Calls into `tiktoken-rs`, `html2text` and `base64` stand behind small trusted
wrappers: the first two name their results (and report the crates' errors as
`None`), the third states the Base64 text exactly.

`app/` holds what Verus does not check: processes, files, HTTP, the terminal, the
chat model, and the floating-point parts (the overflow ratios and the elapsed-time
label).
