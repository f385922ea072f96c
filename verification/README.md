# house_hub

The core of a smart-home server (accounts, houses, areas, devices),
written in Verus and verified.

- `src/` is the verified library. It groups the rows of the database queries
  into the house / area / device hierarchy and into house memberships, builds
  the update statements for personal information and devices, keeps the cache
  of device MACs and account links, the state of each device as its messages
  arrive, the in-memory store of accounts and task queues, the
  server-sent-event sessions of each account, and the decisions of a login
  and a sign-up between their database steps. Each public function states its
  result exactly; the properties that span calls (tasks come out first in,
  first out; a remembered device is found both ways; grouping lists every
  row once; every placeholder of a statement has its parameter; a token is
  issued only for a matching password) are proof
  functions named `law_*`.
- `app/` holds parts of the server around it: JSON bodies, database
  sessions, locks, MQTT publishing and event streams, for the store, device
  and query paths. The HTTP handlers that need authentication, password
  hashing, tokens or scenes are not part of it.
- `tests/` runs the library on concrete values.
