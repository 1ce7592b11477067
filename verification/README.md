# phm_worker

Health metrics of a PHP instance, and the reporting of meter data, as a library
whose behaviour is stated in contracts and proved with Verus.

- `src/text.rs`: lines, words, integers and decimal numbers in `/proc` text.
- `src/snapshot.rs`: the figures in the `/proc` files of a process.
- `src/formula.rs`: what a gauge holds, as an arithmetic expression.
- `src/metric.rs`: the gauges and their names.
- `src/extended.rs`, `src/phm.rs`: the gauges after each look at the process,
  and how often one looks.
- `src/clock.rs`: the wall clock.
- `src/auth.rs`: the authentication header of a request.
- `src/meter_batch.rs`: buffering, flushing and retrying of meter data.
- `src/meter_filter.rs`: taking the meters out of a stream of collected items.
- `src/laws.rs`: what the gauges show over any number of looks, and their exact
  values. The laws of the other modules stand at their ends.

The library decides and computes. `app/` reads files, evaluates gauges in
floating point, and runs the tasks and the client.
