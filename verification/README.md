# knot

The logic of a collaborative knowledge base: documents in a tree, comment
threads, tasks, and the inbox that tells people what concerns them. It is
executable Rust with contracts that Verus proves.

## Layout

- `src/` is the library. Every function in it carries a contract.
  - `notifications`, `tasks`, `docs`: tables in memory and what keeps them valid
    (one row per recipient and dedupe key; one task per place; a tree without
    cycles and siblings in places of their own).
  - `comments`, `sweep`, `grants`: who is notified of what, and under which key.
  - `tree`, `placement`: which moves a tree allows, and between which siblings a
    document goes.
  - `access`, `http`, `doc_routes`, `comment_routes`, `markdown`, `inbox`,
    `collab`: what each endpoint decides on the way from request to answer.
  - `reindex`, `startup`, `metrics`: the reindex worker, the steps of a start and
    the exit codes, listen addresses.
  - `ids`, `time`, `text`, `order`, `seqs`: what the others are built on.
- `tests/` runs the library on concrete values.
- `app/` is the server around it: HTTP, sockets, Postgres, the command line.
  Sessions, permissions, the collaborative rooms and the stores of comments and
  grants come in through the traits of `app/ports.rs`.

## What runs

The server keeps its rows in Postgres. Of the tables above it runs `TaskTable`,
on the rows of one document at a time. `NotificationTable`, `DocTable` and
`sweep::run_once` say, and are proved to keep, what the stores mean; the server
does not call them. The SQL in `app/stores/` stands beside them and nothing ties
the two: that a statement does to the database what the operation of that name
does to its table is for whoever changes either to see to. What the SQL takes
from the library are the rules it can call: which moves make a cycle, who is
notified under which key, the retention spans, the names in the audit log.

## Reading the contracts

Types have a view (`@`) made of sequences, numbers and options, and the contracts
are stated over spec functions on views. An endpoint is a function from what is
known (who asks, what was received, what a store answered) to what comes next:
its contract says which refusal comes on which input, and what is handed on
otherwise. Work that alternates with decisions (a start, an import, a refresh of
a document's text, the instantiation of a template) is a step function from
event to next step.

Functions named `law_...` state what holds across several functions: that
reordering a list notifies nobody, that moves keep the tree free of cycles, that
pages continue where the last one ended.

What the library takes from other crates (UUID text, SHA-256, regular
expressions, base64, calendar dates) stands behind functions marked
`#[verifier::external_body]`; the comment above each says what is claimed of the
function it calls.

Texts are ordered by code point. A database that serves the same listings has to
use the `C` collation for titles and sort keys.
