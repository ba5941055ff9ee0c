# aipass

The rules behind signing in to AI Pass and talking to its models from a desktop
application, written in Verus: the functions under `src/` are verified against the
contracts above them. The short wrappers in `crypto`, `endpoint` and `json`,
marked `external_body`, call other crates (`base64`, `rand`, `reqwest`'s `Url`,
`serde_json`, `sha2`, `subtle`). Their contracts are believed, not proved; the comment
above each names what it calls and what is claimed of it.

- `src/`: the library. `text`, `json` and `crypto` are the ground; `endpoint`,
  `config`, `metadata` and `pkce` say which client and which service may be
  trusted; `authorize`, `session`, `forms`, `access`, `connect` and `disconnect` are
  the sign-in, the stored session and its end; `request`, `reply`, `profile`,
  `models`, `registry`, `chat`, `stream` and `completion` are the requests and their answers.
- `tests/`: ordinary tests against the compiled library.
- `app/`: the commands for the webview, with HTTP, the loopback server, the secret
  store and the clock.

Sign-in, access to a token, requests and sign-out are state machines: `step` takes
what was learnt and says what to do next, and `app/` does it.
