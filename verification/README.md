# Off-site replication

Replicates virtual machines and containers from one remote to another: ZFS snapshots of a guest are
sent to the target on a schedule, together with the guest's configuration, and each complete recovery
point can be promoted to a guest on the target.

- `src/` is the verified library. It decides and computes: which values are safe to use, the scripts
  that run on the hosts, what a run's output says, which recovery points there are, how SSH access is
  prepared, the list of jobs, and the state of the user interface. Every function states in its
  contract what it returns; laws that span several functions are public proof functions named `law_..`.
- `app/` is ordinary Rust around it: files, commands, worker tasks, the API and the web panel. What
  the surrounding daemon and web application provide stands behind the traits `Platform` and
  `Frontend`.
- `tests/` runs the library on concrete values.

Sizes, rates and averages that need floating point are computed in `app/`; the library hands out and
takes the integers and texts on both sides of them.
