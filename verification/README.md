# ollama_bench

A hardware benchmark for [Ollama](https://ollama.com) language models: it
measures how fast a machine processes a prompt (prefill) and generates tokens
(decode), and prints a report.

- `src/` is the verified library (Verus): the data of the Ollama API, what a
  generation reply measures (`metrics`), a model's metadata as shown and its
  lookup by name (`details`), the parsing of GPU probe output and the assembly
  of the system record (`system`), the text of the report (`display`), and the
  character-level text primitives these rest on (`text`).
- `app/` is the program around it: command-line arguments, HTTP requests,
  running the probe commands, floating-point statistics and printing.
- `tests/` exercises the library.
