# pocket_runtime

Host-side orchestration of trusted User-Mode Linux workloads: profile bundles
are verified and sealed, OCI images are built into immutable generations, and
one generation at a time is run under a guard process.

The library in `src/` holds the rules, plans and state machines, written in
Verus. Every executable function has a contract, and the properties that span
functions stand beside them as public proof functions whose names begin with
`law_`. It does no input or output: it takes what was observed and answers with
what to do next.

| Module | What it decides |
| --- | --- |
| `manifest` | whether a profile manifest and each artifact it binds are accepted |
| `profile_seal` | how a template becomes a published, content-addressed bundle |
| `builder` | how an image is admitted, sized, built, validated, published, resized |
| `runtime` | whether a run is admitted, and how it starts, ends and is cleaned up |
| `launch` | the guard's and the kernel's command lines and descriptors |
| `protocol` | frames, and what a guest must say |
| `image` | the process, environment, user and stop signal of an image |
| `cow`, `filesystem` | whether an overlay and a base image are what they must be |
| `operation` | which operation directories are abandoned |
| `oci_export`, `pocket_archive` | how a generation leaves the store |
| `capture`, `terminal` | what is kept of a stream, and of a terminal's settings |

Bytes, text, paths, digests and spans of time have small modules of their own.
Hashing, hexadecimal text and a few conversions of the standard library are
called through the wrappers in `digest` and `text`; their doc comments say what
is taken from them without proof.

`app/` is ordinary Rust around the library: it opens files, starts guards,
moves frames, and turns values into JSON. The store, the guest protocol's
encoding, the OCI layout reader and the host's CPU, memory and path rules are
crates of their own; `app/siblings.rs` says what it asks of them.

`tests/` runs the library on concrete values.
