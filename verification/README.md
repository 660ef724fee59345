# ichika

A helper library for pipelines of worker threads that talk over `flume`
channels, and the verified core of its `pipe![..]` code generator.

`src/` is checked by Verus:

- `status`, `node`, `pool`: the status a stage reports (`Status`,
  `RetryPolicy`, `IntoStatus`), the traits of stages and pools, and the rule
  by which a running pool starts one more worker for a stage
  (`spawn_allowed`).
- `worker`: what a worker does with each status its stage reports
  (`worker_step`): send on, route, report, or run again as the retry policy
  allows, counted by the worker itself.
- `pod`: a worker of a stage, with the stage's name (`ThreadPod`).
- `tokens`: the flat token model of macro input and output (`Tok`), group
  matching, and the source text of tokens.
- `syntax`: the three questions put to `syn` (is this an identifier, an
  expression, a type path?).
- `parse`: the pipeline grammar, as spec functions, and the parser proved
  equal to them.
- `flatten`: naming of the steps and flattening of `match` steps, nested to
  any depth, into dispatchers and the steps of their branches.
- `template`: the source text of the stage types, the worker starters and the
  pool, each against a spec function.
- `expand`: the whole expansion, `pipe`.

`app/` holds what needs threads or the compiler's token streams: whether a
worker's thread is still running, and the conversion between `proc_macro2` token streams and
the library's tokens around `pipe`.
