# hostbraid

HostBraid is a provider-neutral command-line tool for people who work with WordPress sites across
managed hosting platforms: it discovers profiles, sites and environments, opens correctly targeted
OpenSSH sessions, runs bounded batches of remote commands and reads plugin and theme inventory.

The library in `src/` holds the tool's rules, written in Verus and proved against their contracts:

- `model`, `provider`, `catalog`: opaque references, capabilities and catalog resolution;
- `profiles`, `credential`, `store`: profile configuration, credential sources, and the checks
  around the configuration file;
- `ssh`, `remote`: OpenSSH argument construction, capture budgets, batch planning and results;
- `kinsta`: the Kinsta wire model, HTTP status mapping and inventory paging;
- `cli`, `machine`, `render`, `search`, `guide`, `welcome`, `doctor`, `context`, `text`, `order`,
  `error`: command grammar helpers, the versioned machine envelope, human rendering, search
  ranking and diagnostics.

`app/` is the program around it: argument parsing with Clap, JSON with Serde, terminal I/O, the
operating-system keyring, HTTP, and process supervision. `tests/` exercises the library as a user
of the crate would.
