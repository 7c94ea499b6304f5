# dino_cli

A command line tool for image embeddings, similarity search and
classification with OpenVINO, split into a verified library and a thin
application.

* `src/` — the library, verified with Verus: the NPU option rules
  (`cli`), `--size` parsing, input-shape checks and output selection
  (`backend`), pooling plans (`math`), image geometry — resampling filter,
  resize targets, center crop with zero padding, tensor layout (`preprocess`),
  model-file resolution and safe repository names (`resolve`), image listing in
  path order (`images`), top-k ranking in `f64` total order (`rank`),
  lookups in parsed JSON metadata (`json`) and per-command checks and class
  labels (`commands`). Image decoding and resizing are calls into the `image`
  crate: decoding is claimed to give a buffer that matches its size; resizing
  gives the new size, copies at the same size, gives black for an empty image,
  and with the nearest or triangle filter a result fixed by its arguments.
* `app/` — the executable: argument parsing with clap, OpenVINO inference,
  Hugging Face Hub downloads, directory walking, reading files, parsing JSON
  into the library's value type, JSON output,
  and the floating-point steps (normalization, averaging, cosine similarity,
  softmax), each following the plans the library computes.
* `tests/` — tests of the library's public functions.
