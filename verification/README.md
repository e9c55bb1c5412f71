# macro_kit

The code generators behind a family of Rust procedural macros, written as a
verified library: every generator takes the macro's input as source text and
returns the generated code (or the error it reports) as text, and its
contract states that text exactly.

- `src/` — the verified library. `syntax` and `tokens` read Rust items with
  `syn` and `proc_macro2` behind trusted functions whose results are named;
  `hello`, `visibility`, `builder`, `typestate`, `panic_result` and `analyze`
  are the generators; `error` turns refusals into `compile_error!`
  invocations; `iac` describes the requests of the infrastructure-as-code
  macro; `person` and `compose` hold the example functions.
- `app/` — the token-stream entry points of the macros and the AWS clients
  that send the requests that `iac` describes.
- `tests/` — tests of the library on concrete inputs.
