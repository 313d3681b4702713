# ssamd

A daemon that runs signed container packages on embedded Linux: it mounts a package's
file system through an integrity target, connects its container to a bridge, runs it as a
transient unit of the service manager, and installs, upgrades and removes packages.

- `src/` is the library: every rule of the daemon, with its contract, verified by Verus.
  What reaches out to files, devices or the service manager is split into steps: the
  library says what has to be done next, and is told what came of it.
- `tests/` runs the library on concrete values.
- `app/` is the daemon around the library: it carries the steps out. Reading package
  files, serving clients, loop devices, bridge wiring and data directories come from the
  program that links it, through the traits in `app/host.rs`.

| modules | what they hold |
| --- | --- |
| `allocator`, `ipv4`, `network_actor`, `network_laws` | addresses of the bridge network |
| `network`, `netavark_ops` | names, namespaces and wiring options |
| `state_machine`, `transition`, `transitioner`, `package` | the life of a package |
| `package_manager`, `pkg_file`, `parser`, `store` | installing, removing and loading |
| `mount`, `dm_control`, `verity_device`, `byte_order` | mounting with integrity |
| `oci`, `bundle`, `apparmor` | the runtime configuration of a container |
| `systemd`, `package_status` | units and their states |
| `configuration`, `daemon`, `ext4quota`, `package_volume` | the rest of the host |
| `text`, `path`, `name_map` | texts, paths and maps by name |
