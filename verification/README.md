# rio-rs

Distributed stateful services: objects that answer messages, placed on the
servers of a cluster, with clients that find them wherever they live.

## Layout

- `src/` — the library, verified with Verus. It holds the decisions and data
  structures of the framework, each with its contract:
  - `sorted_set` — members ranked by an accumulated score;
  - `cluster` — members of the cluster, their failures, how they are stored
    as text (Redis, HTTP), and the peer-to-peer health rules;
  - `object_placement` — where objects live, and the keys they are stored under;
  - `client` — which server a request goes to, the placement cache, and when a
    request is redirected, retried or finished;
  - `service` — what a server does with a request for an object placed
    elsewhere, or nowhere;
  - `protocol`, `errors` — the messages and errors of the protocol;
  - `text`, `time`, `sort_key`, `seq_keep` — text, instants and ordering.
- `app/` — the runtime around the library: TCP transport, SQL and Redis
  back-ends, the HTTP view of the members, the registry of service objects,
  and the server and client loops (tokio).
- `tests/` — tests of the library on concrete values.
