# archive_replicator

A node of a network that keeps copies of archives. Nodes announce what they have over gossip,
download what they lack from each other, and find each other through a registry.

- `src/` is the library: the rules of such a node, written in Verus and proved against their
  contracts. It touches neither network nor disk. `laws.rs` holds what is proved of the parts taken
  together.
- `app/` carries out what the library decides: iroh for blobs, gossip and connections, reqwest for
  the registry, tokio for time and tasks.
- `tests/` runs the library on concrete values, with the real crates behind it.

| Module | What it holds |
| --- | --- |
| `text`, `ids`, `json` | texts, identifiers and documents, and the calls into other crates that read them |
| `index`, `store` | which blob stands at which path, tags, sizes |
| `gossip` | announcements, fetch requests, catching up with a new peer |
| `replicator` | which archives are downloaded, and the counters |
| `config`, `http`, `registry`, `peers`, `proxy` | registering a node, reading the nodes of others, the proxy |
| `discovery` | the loop that registers and looks for peers |
| `laws` | what holds of all this together |
