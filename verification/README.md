# protocols

Verified building blocks for distributed protocols: network adversaries
(timing and failure models), quorum systems, cryptographic stand-ins,
common coins, and the protocol nodes themselves (two generals, OM(1),
Dolev–Strong, Bracha broadcast, Ben-Or, Rabin, Bracha-ABA, MMR, 2PC,
Viewstamped Replication, Paxos Synod, Multi-Paxos, Mencius, Raft, ZAB,
chain replication, PBFT and the helper types of many more).

Each node is a deterministic state machine: a handler takes one event
(`on_tick`, `on_receive`, `on_timer`) and records the messages it sends
and the timers it arms in a `net::StepCtx`. Every handler states its
effect exactly in its `ensures`, and the invariants that every step keeps
(promises and terms never go back, logs only grow, delivered sets only
grow) are part of those contracts. Laws that span several calls or
values stand as public proof functions (`lemma_*`).

Layout:

- `src/` — the library, verified by Verus.
- `tests/` — scenario tests, including end-to-end runs of the nodes on a
  small discrete-event scheduler, and concrete instances of the laws.
- `app/` — the omission adversary, whose floating-point drop
  probabilities stay outside the verified library.
