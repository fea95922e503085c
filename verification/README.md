# agentkernel

The verified core of the agentkernel sandbox service, written in Verus.

- `src/` is the library. Its functions carry contracts that Verus
  proves: identities and API keys (`identity`), the OIDC device flow
  (`identity/oidc`), interactive permissions (`permissions`), Docker image
  bookkeeping (`images`, `image_builder`), job scheduling decisions
  (`job_scheduler`), the orchestration planner (`orchestration`), canonical
  JSON (`json`), the request rules and the handler table of the HTTP API
  (`http_api`, `routes`), the checks and step sequences of sandbox creation,
  import and restore, resizing, command execution, streamed runs and listing
  (`create_plan`, `recreate_plan`, `resize_plan`, `exec_request`,
  `run_stream`, `sandbox_listing`), and the string and number helpers they
  share (`text`). Calls into outside crates (`sha2`, `hex`, `chrono`, `dirs`,
  `jsonwebtoken`, `base64`, `urlencoding`, `serde_json`) stand behind small trusted
  wrappers whose contracts say what those crates do.
- `tests/` runs the library on concrete values.
- `app/` is the unverified runtime around it: serialisation with serde, the
  network calls of the OIDC flow and of JWT validation, Docker invocations,
  the persisted start configurations, and the files under the user's home
  and configuration directories.

Check the library with `verus` on `src/lib.rs`; build and test with cargo.
