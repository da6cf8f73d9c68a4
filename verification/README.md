# k8s-job-dispatcher

Runs one Kubernetes Job per node. The library decides, and Verus proves what it decides:

- how a Job and its label values are called (`src/naming.rs`),
- how a Job is built from a template, recognised again and read (`src/job.rs`, `src/tracking.rs`),
- which nodes a run reaches, by taints and tolerations (`src/node_filter.rs`),
- which pod speaks for a Job (`src/pods.rs`), why the Job failed and what it waits for
  (`src/diagnosis.rs`, `src/one_line.rs`).

`src/objects.rs` holds the parts of the cluster's objects that these decisions read or write, each
with a view. `src/text.rs`, `src/trim.rs`, `src/words.rs`, `src/numerals.rs`, `src/sorted.rs` and
`src/string_map.rs` are what they are built on.

Contracts are stated over the views. Functions whose names start with `law_` state what holds of
the library as a whole.

Two things are believed rather than proved: that `String::push` appends a character
(`src/text.rs`), and that `sha2::Sha256::digest` gives 32 bytes that depend on its input alone
(`src/digest.rs`). That two inputs get different digests is not believed: where names are told
apart by a hash, the laws say so.

`app/` turns the objects of the Kubernetes API into those of the library and back, and lists pods.
