# thread_requirement

The requirement surface of a coding-agent thread: what a thread is for, how
far it has come, and which decisions it waits on.

- `src/` is the library, verified with Verus:
  - `text` — character-level text operations (trimming by Unicode white
    space, line splitting, joining, decimal digits) stated over `Seq<char>`;
  - `protocol` — the request, response and requirement types and their views;
  - `history` — turns and items of a thread's history;
  - `summary` — the outcome summary: the latest agent message without fenced
    code blocks;
  - `summary_law` — stripping fenced code blocks twice changes nothing more;
  - `decisions` — decisions derived from plan lines, and their filtering;
  - `identity` — decision ids are distinct when plan ids are;
  - `requirement` — the requirement status and the built requirement, with
    the laws that relate them;
  - `thread_id` — thread ids through `uuid`, and JSON-RPC errors;
  - `processor` — the answers to the read, list and resolve requests;
  - `source` — where a requirement's source comes from (thread store or live
    thread, whose history is read, with archived items, only when it is not
    ephemeral), what the store is asked for, and where
    the goal is looked up;
  - `view` — the terminal overlay as styled lines.
- `app/` holds what stays outside the proofs: the wire types with serde,
  JSON schema and TypeScript derives, drawing the overlay with ratatui, and
  the web page served with axum.
- `tests/` runs the library on concrete requirements.
