# kubernetes_auth

Authentication and authorization of Kubernetes requests at an access gateway, verified with Verus.

- `src/`: the library. Procedures that need the gateway are step functions: `pending` tells what a
  procedure waits for, `resume` takes the answer, and `after` or `step_after` is the specification
  of that step. Beside them stand the laws, as public proof functions.
- `app/`: the asynchronous side. `drive.rs` carries questions and answers between the library and a
  `Gateway`; `services.rs` is the gateway of the Warpgate workspace, whose own crates it needs.
- `tests/`: the library's behaviour on concrete values.
