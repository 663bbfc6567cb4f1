# cluster_mgr

The planning side of a cluster manager for MonographDB / EloqKV, written in
Verus: what to run on which host, and the configuration files and shell
lines that go there, each with a contract that Verus proves.

- `src/config/` — the deployment: SSH connection and endpoints, the log
  service and how its replication groups are laid over hosts and disks
  (`log_service`, `deployment`, `disk_matrix`, with the laws of the layout in
  `layout_laws`), and the MonographDB configuration generated from it.
- `src/cli/` — the commands and the tasks they plan: Cassandra and
  log-service control, runtime dependencies, custom commands, unpacking,
  the uploads of packages and configuration per service and host, the
  stages of the install, deploy and control commands (`task_group`), the
  clean-up after a failed log scale-out, topology display (with
  the table rendered by `prettytable`) and the topology update's rows and
  decisions, the SSH checks and the retry policy of a connection
  (`ssh`), and how tasks are cut into stages.
- `src/text.rs` — string building and parsing (decimal numbers, `split`,
  `lines`, `replace`, `parse::<i32>`) specified over `Seq<char>`.
- `src/ini_file.rs`, `src/ordered_map.rs` — the `configparser` and
  `indexmap` calls the library makes, with their trusted contracts.
- `src/web.rs` — the reply to a command-status query.
- `app/` — the program: argument parsing, reading the deployment file,
  SSH and SCP, running the planned stages and uploads, the topology store
  and the driver of the topology update (`topology.rs`), the web listener,
  and the machine's OS and CPU.
