# simple_payment_engine

A payment engine: it reads deposits, withdrawals, disputes, resolutions and
chargebacks, keeps one account per client (funds available, funds held under
dispute, frozen or not), and writes the accounts out.

Layout:

- `src/` is the library, verified with Verus.
  - `amount.rs`: decimal amounts; the arithmetic is rust_decimal's, behind
    trusted wrappers whose contracts state when it is exact.
  - `model/`, `types.rs`: accounts, transactions, identifiers.
  - `repository/`: the account and transaction stores (traits, and hash-map
    implementations).
  - `engine/`: validation, the processing of each kind of transaction as a
    specification and as code proved to follow it, and `laws.rs`, the
    properties that hold across transactions and over whole runs (among them:
    whenever the decimal arithmetic is exact, the funds held in an account are
    the client's disputed deposits, and a client's funds are its deposits not
    charged back less its withdrawals; a frozen account stays frozen).
  - `aggregator/`: what went through and what was refused, counted.
  - `io/`: the output line of an account, and the CSV writer's holder.
- `app/` is the command-line program: CSV reading and writing, logging, the
  summary on stderr.
- `tests/` runs the library on concrete inputs.
