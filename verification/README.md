# stack_buf_io

Buffered readers and writers whose buffer is an array inside the value, with
proofs in Verus.

- `src/` is the library. `StackBufReader` and `StackBufWriter` never call what
  they wrap: each operation says which call to make next and takes what came of
  it. `reader_state` and `writer_state` give the meaning of every step;
  `reader_laws` and `writer_laws` prove what follows for any number of steps,
  such as that no byte is lost, repeated or reordered. `stream_laws` proves that
  reads and seeks in any order find what the stream holds at their position.
- `app/` makes the calls: `std::io::{Read, BufRead, Seek, Write}` on top of the
  library.
- `tests/` runs the library against scripted streams.
