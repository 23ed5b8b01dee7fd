# lit_bit_core

Core pieces of the `lit-bit` statechart and actor framework, verified with
Verus.

- `src/actor/` — actor errors and restart strategies, deterministic restart
  back-off, bounded FIFO mailboxes with fail-fast sends, the supervisor
  (OTP-style `OneForOne` / `OneForAll` / `RestForOne` restarts with
  per-child restart windows), bounded panic messages, and the state machine
  behind every actor task loop (`lifecycle`).
- `src/bench/` — benchmark fixtures, latency and allocation accounting,
  reading counters out of `perf stat -x ,` output, and executor planning.
- `src/safety_check.rs` — the unsafe-code audit over a geiger report.
- `src/test_utils/` — probe events and the predicates probes match them by.
- `app/` — the Tokio side: task loops driving `lifecycle::ActorTask`,
  addresses, spawning, the supervised runtime, probes, executors, the
  floating-point statistics, and the audit command.
- `tests/` — unit tests of the library.

Verus proves the functions of `src/` against their contracts. The exceptions
are a few `#[verifier::external_body]` wrappers around the system clock,
Tokio's `try_recv` and `Duration` conversions: their contracts are trusted
and claim no more than those calls document. Where a result rests on such a
call (the clock, what other tasks sent, a user's restart factory), the
contracts say what holds whatever it returned.
