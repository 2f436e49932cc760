# data_market

Five contracts of a market for language data, verified with Verus.

| Module | What it does |
| --- | --- |
| `data_commission` | holds a bounty in escrow until a commissioned dataset is delivered, tranche by tranche or at once, cancelled or ruled on |
| `dataset_registry` | datasets, their contributors' shares, their lifecycle and the reputation of their owners |
| `quality_oracle` | staked curators score datasets; outliers are slashed |
| `license_router` | licenses, their fees, and the royalty base that follows from a dataset's quality |
| `royalty_splitter` | divides royalties between the treasury and the contributors, to the last unit |

`governance` is what they share: one admin, a handover in two steps, a freeze of
all writes, and upgrades. `host` is the boundary to the ledger: a call reads a
`Context` and leaves behind `Effects`, in order. `dummy` holds the smallest
contracts there can be.

Each contract is a value that holds all it has stored. Its model (`...Model`) is
a mathematical value, and every entry point is stated by a function on it: which
answer, which state, which effects. `laws.rs` beside each contract states what
holds of every call in every state that calls lead to: that nothing is lost from
escrow, that a split pays out all of an amount, that a frozen contract changes
nothing.

`app/` runs the contracts on a Soroban host: it reads from the ledger what a call
touches, lets the library answer, writes back what changed and carries out the
effects. `tests/` carries the effects out on a Soroban test ledger.
