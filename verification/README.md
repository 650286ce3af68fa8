# macp

The coordination core of the Multi-Agent Coordination Protocol, verified with
[Verus](https://github.com/verus-lang/verus).

A session binds participants, versions and a policy. Messages arrive in envelopes;
`step` checks each one, the mode of the session decides what it means, and only what
the mode accepts changes the session. There is no clock, storage or network in the
library: the caller passes the time in and keeps the records.

| Module | What it holds |
|---|---|
| `session`, `session_start`, `session_id`, `suspension` | the session, its opening, its identifier, and its pauses |
| `step` | what happens to a session when a message arrives |
| `mode` | the modes (`handoff`, `quorum`, `multi_round`, `passthrough`), what they share, and their descriptions |
| `policy`, `decision` | policies, their rules, and what an evaluator is asked |
| `commitment_hash` | the canonical form and the hash of a commitment |
| `security`, `rate_limit`, `auth` | who a caller is and what it may do |
| `pb`, `wire` | the messages in protobuf, and its wire format |
| `codec`, `json`, `json_text` | what is recorded as JSON, documents, and their texts |
| `text`, `text_map`, `arithmetic`, `double` | text, ordered maps, saturating and floating-point arithmetic over plain values |

`prost` reads and writes the primitives of the wire format, `serde_json` parses and
prints JSON documents and tells where the values in a text end, `sha2` hashes, and `uuid`
reads identifiers. The functions that call them say in their contracts what they rely on;
everything else is proved.

A record, a contribution or a list of tokens is read from its JSON text layer by layer: a
field must be named once, a member that no field names is passed over whatever it holds, and
of the entries of a map the last one counts. A list of tokens must be a document as a whole.

`app/` is the ordinary Rust around the library: environment variables, request headers,
locks, the resolvers of credentials, the log, and what `serde` writes.
