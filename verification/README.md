# datafusion_distributed

Plans queries for execution on many machines, and proves that it does. The library takes a physical
plan as a query engine built it, cuts it into stages that run in several tasks each, checks that
running a stage once per task produces what running it once would, and prepares the stages for the
workers that execute them. It is written in Verus: what each function returns is stated in its
contract, and the contracts are proved.

## Layout

- `src/` is the library.
  - `plan`, `task_count`, `ids`, `error`, `error_message`: the plans, and what goes wrong with them.
  - `recursion`: walks over plans that follow a task, or the number of tasks.
  - `normalize_collect_joins`, `insert_broadcast`, `inject_network_boundaries`,
    `partial_reduce_below_network_shuffles`, `push_fetch_into_network_coalesce`,
    `prepare_network_boundaries`, `validate_stages`: the passes of the planner, which
    `distributed_query_planner` puts together. `boundary_factory` and `network_boundary` make and
    read the nodes between two stages. `injection_laws`, `stage_laws` and `dynamic_laws` state what
    holds of every plan that is cut.
  - `engine_reports`, `statistics`, `runtime_statistics`, `vectors`: what the engine reports of
    nodes and of rows.
  - `query_coordinator`, `plan_encoding`, `prepare_static_plan`, `prepare_dynamic_plan`,
    `metrics_store`, `distributed`: the coordinator of a query.
  - `codec`: the nodes of the library as messages.
  - `dynamic_filtering`, `worker_fragments`, `embedded`: filters between stages, the fragments of a
    plan, and what an embedder needs that moves batches itself.
  - `distributed_config`, `distributed_ext`, `session_state_builder_ext`: the settings.
- `app/` is ordinary Rust around it: DataFusion's side of the settings and messages, floating-point
  arithmetic, and the asynchronous traffic with workers.
- `tests/` runs the library.

## Asking the engine

Some of what the planner needs only the engine knows: what a node demands of its inputs, how a leaf
is read by several tasks, what a stage costs. A function that needs such a thing takes the answers
that were given so far, and returns either its result or the next question. It is called again with
one more answer, until it has a result. Answers that were used once are used in the same way again.
