# squeak

A verified core for a small Squeak-style runtime and the booter around it.

`src/` is the library, proved with Verus:

- `squeak_object`: tagged object words and the walk that marks the children
  of a value in a word-addressed heap.
- `executor`: the bookkeeping of a cooperative task executor over a shared
  `crossbeam_queue::ArrayQueue` of ready ids.
- `future`: futures driven by a poll closure and the merge of two of them.
- `compositor`: key bindings, view stacking, render order and seat
  capabilities of a Wayland compositor.
- `boot`: the sandbox choice, the second boot phase and its arguments, and the
  scan request in a child's report.
- `catch_panics`: the outcome of a panic from the results of the panic hooks.
- `lifetime`, `secure`, `sandbox`, `morph`: lifetime witnesses, the secure
  marker trait, the sandbox and enclave traits, and the Morphic traits.

`app/` drives the library: it polls futures and halts the processor for the
executor, reads boot flags, mounts and forks for the booter, and hooks values
into the `gc` collector.
