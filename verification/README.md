# wash_server

Real-time notification core of a car-wash back office.

- `src/` is the verified library:
  - `models` — the records of the `clients` and `sales` tables and the washing
    and payment states;
  - `messages` — the four user roles, the event types, the notifications the
    sales monitor produces and the roles each one is broadcast to;
  - `session` — the per-role delivery filter and the reading of the role from
    a WebSocket query string;
  - `server` — the registry of connected sessions, with the record of every
    message it hands to a session channel (the only path to one);
  - `broadcast` — the broadcasts by role;
  - `monitor` — the polling monitor that turns snapshots of the sales table
    into notifications, and the planning of inventory and promotion alerts;
  - `text` — decimal rendering of numbers;
  - `laws` — properties proved across these functions (routing per role,
    one announcement per sale, silence on an unchanged table, summaries).
- `app/` is the HTTP/WebSocket server around it (actix-web, sqlx, tokio): it
  reads the database, runs the polling loops and serialises messages to JSON.
- `tests/` exercises the library on concrete values.
