# mcpg-cli-core

Client-side plumbing shared by the MCPG command-line tools: the login with OpenID Connect and PKCE,
the stored credentials and their renewal, the headers of calls to the control plane, the rendering of
provisioning streams, and the state directory.

`src/` is the verified library. It decides what is fetched, sent, written and printed; it does none of
that itself.

- `login`: the login as a state machine.
- `refresh`: the renewal of a stored login as a state machine.
- `credentials`: the stored credentials, and the steps that write their file.
- `files`, `clock`: the steps that write files with a model of the disk, and readings of the clocks.
- `oidc`: the client of an issuer, the search for its keys, PKCE, and the claims of identity tokens.
- `jwt`, `codec`, `link`, `json`: what comes from `jsonwebtoken`, `base64`, `sha2`, `rand`, `url` and
  `serde_json`, each call behind a stated contract.
- `client`: the credentials that a call carries, and the report of a failed call.
- `stream`: the events of a provisioning stream as lines.
- `context`, `paths`: the sticky defaults, and where files are.
- `text`: text helpers.

`app/` is ordinary Rust around it: files, the environment, the network, the browser and the terminal.
`tests/` runs the library.
