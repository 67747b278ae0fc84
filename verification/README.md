# ai-jail

Runs a command in a jail: `bwrap` on Linux, `sandbox-exec` on macOS.

`src/` is a verified library. It decides everything that can be decided from plain
values: which mounts a jail gets of what the host offers (`mounts`), the command line
and the isolation flags (`bwrap`), the sandbox profile (`sbpl`), the shell command and
its quoting (`shell`), the text of a dry run (`dry_run`), and the order of the steps of
a run (`run`). `reader` models how a shell splits a line into words and proves that the
quoted command, and what a dry run prints, read back as the words they were made of.
Paths are the bytes that the operating system knows them by.

`app/` is the program around it: it reads the command line, looks at the host, starts
the jail and waits for it.
