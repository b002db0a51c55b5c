# opereon

The verified core of opereon, a tool that keeps a model of hosts, users and
procedures in a git repository and runs the procedures over ssh.

- `src/` is the library, verified with Verus: the model tree and the parsing of
  host, user, scope and procedure definitions (`model::defs`), the
  configuration of a model's directories (`model::config`), which changes an
  update procedure reacts to (`model::update`), model paths, manifests and
  metadata; the command lines for local and ssh commands and the wrapper
  script (`command`); the output log of a command (`outlog`); rsync's progress
  output (`rsync`); the connection protocol, discovery and bookkeeping of
  the node network (`net`); and logging levels and filters (`logging`).
- `app/` is the unverified rest: spawning processes, ssh master connections,
  running rsync, reading configuration files from git, serialised forms of
  the library's types and the tracing layers.
- `tests/` holds the tests.

Expressions of the model's path language (opath) are kept as unchecked
text: where a definition holds an expression, any text is accepted, and no
error is reported for its syntax (a watch path, a scope value, a task's
environment, output or `when` expression, a step's hosts). Evaluating and
parsing such expressions is left to the expression language's own crate.
