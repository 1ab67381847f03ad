# Zeek language server

The logic of a language server for [Zeek](https://zeek.org) scripts, verified with
[Verus](https://verus-lang.github.io/verus/).

- `src/` is the library. `lsp` and `created` hold what the server knows of the documents it serves
  and how notifications change that. `symbols`, `completion` and `hover` answer requests, and
  `document` ties hovering and completion to a document and its syntax tree. `parse` deals with
  syntax trees. `zeek`, `paths` and `startup` deal with an installation of Zeek. `query`, `position`
  and `text` hold what the others share.
- `app/` connects the library to a client, to `zeek-config` and to the file system. It expects the
  Zeek grammar for tree-sitter to be linked in, and takes what finds declarations as an argument.
- `tests/` runs the library on concrete values.

What the library takes on trust of other crates and of the standard library is stated next to the
functions that call them: tree-sitter in `parse`, itertools in `symbols`, URLs in `created`, paths
in `paths`, and UTF-8 decoding in `text`.
