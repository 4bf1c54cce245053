# blkc

A tool that runs shell commands over SSH on the servers of a JSON list,
selected by name or by label, optionally as root, and shows server details.

- `src/` is the verified library: which servers a query selects, which entry
  a connection goes to, the `ssh_key` setting of `blkc.conf`, the texts sent
  to the password store and to the remote shell, every printed message, and
  what a command line asks for.
- `app/` is the program around it: argument parsing, reading files and the
  environment, the password store process, SSH sessions and threads.
- `tests/` runs the library on concrete inputs.
