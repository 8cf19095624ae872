# sable

A verified core for the Sable compiler: control plans and destruction recipes, the tree-walking
interpreter behind `sable test`, diagnostic rendering, the checks of `sable doctor`, and the
decisions of the warm-check daemon.

`src/` is the library. Every item in it is verified with Verus.

- Foundations: `repr`, `text`, `bindings`, `span`, `ast`, `place`, `lines`, `scan`.
- Control plans: `flow` and `outline` find the lexical blocks and how they end; `drops` says how a
  value is destroyed; `traps` lists where an expression can fail; `builder`, `inventory`,
  `structure`, `reconcile`, `seal`, `plan`, `lookup` and `program` build a plan for each body and
  seal it.
- Interpreter: `gates` decides what may run; `value`, `heap`, `render`, `slots`, `rawheap`,
  `devices` and `monitor` are its state; `machine`, `steps` and `effects` are its small steps;
  `semantics` states what a program does; `interp`, `operators`, `calls`, `callable`, `execute` and
  `run` do it.
- Tools: `diag`, `doctor`, and for the daemon `json`, `wire`, `daemon`, `session` and `serve`.
- `outline_laws`, `plan_laws`, `seal_laws`, `ledger_laws`, `heap_laws` and `run_laws` hold laws that
  span several of these; a law about one module stands in that module. Their names start with
  `law_`.

What is believed without proof stands in `json` (the calls into `serde_json`) and in `text`
(`String::push` and `char::escape_debug`); each item says what it claims.

`app/` is the program around the library: processes, sockets, files and time.
`tests/` runs the library from outside.
