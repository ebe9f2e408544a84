# mcplug

A plugin and server-jar manager for Minecraft servers: it identifies the installed
plugins by their hashes, checks Modrinth, Hangar, GitHub and GeyserMC for updates,
applies them as transactions that can be reverted, restarts servers when nobody is
online, and runs as a daemon with policy-driven automatic updates.

## Layout

- `src/` is the library, verified with Verus. It holds the decisions: identifying jars,
  choosing versions, building plans, the order of a transaction's steps, the lockfile,
  the daemon's turn and its request handling, restart policies, the server-list ping and
  RCON packets, start-command rewriting, and the texts shown to users. Outside crates
  (hashing, JSON, YAML, zip, URL and time parsing, glob matching) are called through small
  trusted wrappers whose contracts say what those crates do.
- `app/` is the program around it: the command line, files, network requests, processes
  and the daemon's loop. Each step it takes is one the library decides.
- `tests/` exercises the library on concrete values.
