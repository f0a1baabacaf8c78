# radicle_services

The logic of the Radicle client services — the git server and its hooks, the
HTTP API, the org node, the indexer node and the node storage types — as a
Verus library. The functions in `src/` carry contracts that Verus proves,
except the trusted wrappers listed below.

- `src/git_server`: the environment and output of `git http-backend`, the
  server settings, and the `pre-receive` / `post-receive` hooks (push
  authorization, head updates, identity updates, and the guarded reference
  transaction as a state machine).
- `src/http_api`: history and listing pages, committers, head resolution,
  branches of a remote, diff statistics, error responses and sign-in sessions.
- `src/org_node`: the URN of an anchored project, the node state, and the
  decisions of the protocol client as state machines.
- `src/node`: project remotes and the control socket commands and replies.
- `src/indexer.rs`, `src/project_meta.rs`, `src/refs.rs`, `src/keys.rs`,
  `src/oid.rs`, `src/text.rs`: the indexer pages, project metadata,
  reference names, SSH fingerprints, object ids and text helpers.

## Trusted code

The functions marked `#[verifier::external_body]` call outside crates or std;
Verus believes their contracts without proof:

- `keys.rs`: `write_u32_be` (byteorder), `sha256_digest` (sha2),
  `base64_encode` (base64);
- `oid.rs`: `git2_oid_from_str` (git2), `hex_encode` (hex);
- `text.rs`: `push_char` (`String::push`);
- `git_server/hooks/pre_receive.rs`: `pgp_read_key`, `pgp_verify_key`,
  `pgp_armored_key_id`, `pgp_primary_key_version`,
  `pgp_primary_rsa_modulus_len` (pgp);
- `git_server/server.rs`: the `fastrand::Rng` type, `new_rng`,
  `random_alphanumeric` (fastrand);
- `git_server/backend.rs`: `http_status_from_str` (http),
  `utf8_string` (`String::from_utf8`);
- `http_api/sessions.rs`: `random_byte` (fastrand), `parse_authority` (http);
- `http_api/error.rs`: `canonical_reason` (http);
- `indexer.rs`: `url_resolve` (url).

Some of them state less than the whole behaviour: the random ones say nothing
of the value drawn, and the results of pgp, url, http's authority parser and
sha2 are given names (`uninterp spec fn`) rather than stated. The pgp ones are
only called on texts that end in a complete armor footer and, past reading,
on keys whose key id pgp can compute; `key_file_matches_checked` tells the
other texts apart.

`app/` holds the command-line entry points and the I/O around the library;
`tests/` holds the tests.
