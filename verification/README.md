# simplecc

The core of a daemon that stands between an editor and its language servers. The
editor sends requests, one JSON object per line; the daemon starts the servers,
speaks the Language Server Protocol with them, and sends events back.

Everything that decides or computes is in `src/`, and every item of it is verified
with Verus. `app/` is the program around it: processes, files, the network, the
file watcher and the `main` loop.

## Layout

- `src/text.rs`, `path.rs`, `byte_path.rs`, `uri.rs`, `json.rs`, `strmap.rs`,
  `seqs.rs`: text, paths as text and as bytes, URIs, JSON values and maps, with
  exact models.
- `src/config.rs`: the servers of a configuration, which of them is chosen for a
  filetype, and where a configuration comes from.
- `src/registry.rs`: the servers that run, how they are started, and their root
  directories.
- `src/installer.rs`: what can be installed, from where, and how a new
  installation takes the place of an old one.
- `src/workspace_watcher.rs`: which changes to files are passed on.
- `src/lsp/`: the protocol. `transport` frames messages, `client` matches requests
  and answers, `sync` tells servers of documents and files, `completion`,
  `actions`, `tokens` and `features` ask for things and take the answers, `server`
  answers what servers ask, `types` and `read` turn messages into what the editor
  receives, `decode` hands values to `lsp_types`, and `uris` says where its types
  hold URIs.
- `src/daemon/`: the requests of the editor, what is done about each, and how a
  feature goes on from answer to answer.
- `tests/`: the library from outside.

## Reading the contracts

A type that holds text or lists has a model: `view` or `deep_view` gives it.
Contracts speak of models. Functions whose names start with `law_` state what holds
of several functions together.

What the library believes of other crates stands in `json.rs` (`serde_json`),
`uri.rs` (`url`, `urlencoding`), `lsp/decode.rs` (`lsp_types`) and `text.rs` (the
standard library), each in a function of its own whose comment says what is
believed.
