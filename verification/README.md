# stretto

A cost-bounded cache with a buffered writer, verified with Verus.

- `src/` is the cache itself: what a call does to the stored values, which
  messages it sends, what the working task makes of them, what is evicted and
  what expires. It neither waits nor sends nor reads a clock. `src/laws.rs`
  proves what holds of the whole.
- `app/` runs it on tokio: channels, the cleanup timer, the callback.
- `tests/` run the library on concrete values.

How often keys are asked for is estimated by the access counters in
`src/frequency.rs`. Their `Ranking` of candidates for eviction is handed to the
working task where a new value needs room. What is proved of the working task
holds for any ranking.
