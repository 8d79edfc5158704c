# piece_selector

Decides which piece of a task a peer downloads next.

Collectors report the pieces that other peers hold. What parents report is merged by piece
number, and pieces are selected from it at random, each one once. What children report is kept
apart and is dropped with the child. The scheduler announces the children on a stream, which is
opened again with a growing delay where it breaks.

- `src/` is the verified library: the selector's state and every decision on it. `state.rs` says
  what the state is and what each operation makes of it; `laws.rs` and `history.rs` state what
  holds across operations.
- `app/` runs a selector: tasks, channels, collectors and the stream to the scheduler.
- `tests/` runs the library on examples.
