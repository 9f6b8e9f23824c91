# vgpu_market

A GPU rental marketplace with Lightning payments. Providers list a GPU host and
set one price in whole satoshis per minute; tenants pay in over Lightning, rent a
machine, and are charged for the elapsed time when the rental stops. A rental whose
cost has outrun its account is evicted.

`src/` is the marketplace's logic, verified with Verus: the books and every request
that changes them, billing, the host agent's decisions, the tenant's command line
and the plan of the GPU benchmark. `app/` holds the programs around it: the HTTP
server and its SQLite store, the host agent with its container engine, the command
line, and the GPU kernels. `tests/` runs the library.

| Module | What it holds |
|---|---|
| `money`, `model`, `api`, `error`, `text` | amounts, enums, requests and answers, errors, text |
| `db` | rows, tables, their mathematical view `Market`, the ledger's one entrance |
| `state`, `billing` | configuration, clock, accrual, the ticker |
| `routes` | the agent's and the tenant's requests |
| `lightning` | payment backends |
| `laws` | what holds of the marketplace as a whole |
| `benchmark`, `runtime`, `mlx`, `agent` | a host's hardware, containers, jobs and reports |
| `cli` | what the tenant's command line asks for and shows |
| `bench` | the GPU benchmark: phases, sizes, choices and tables |

The laws speak of every market and every event, and of every history of events from
an empty market: keys stay unique and no balance goes negative (`laws::books`); a
rental is charged for at most once, when it ends, and an ended rental stays ended
(`laws::charges`, `laws::tenancy`); charges cancel out, and as long as each payout
books what is owed by then, the ledger sums up to the sats in custody
(`laws::money`); a machine has one tenant at a time, on the terms it was rented on
(`laws::tenancy`); a command is delivered at most once, and the ledger only grows
(`laws::queue`). A payout clears what is owed when it is booked: where more has come
in since its amount was read, the ledger books the smaller amount.
