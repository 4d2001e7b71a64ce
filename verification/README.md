# vramancer

Can a machine run a given language model? This crate reads a model's family, size and
quantisation from its name, places the model's memory on the machine's GPU and RAM, and
keeps the state of an interactive model browser. Its logic is written in Verus and proved
against its contracts.

Layout:

- `src/text.rs`: character-level string operations (find, split, trim, lines, decimal
  numbers) with their specifications.
- `src/heuristics.rs`: models, name parsing, the bits-per-weight, architecture, cache and bandwidth
  tables, memory placement and the advice given.
- `src/system.rs`: the machine, and reading GPUs from the output of the vendors' tools
  (`nvidia-smi` text, `rocm-smi` JSON).
- `src/adapters.rs`: Hugging Face ids and `ollama list` output.
- `src/app.rs`: the browser state, search ranking and key handling.
- `app/`: the command-line program: system detection, the floating-point parts of an
  estimate, JSON and Markdown reports, and the terminal interface.
