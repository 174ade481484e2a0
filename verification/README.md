# anda_extension

Workspace-guarded file access and a native shell runtime, verified with Verus.

`src/` holds what is decided and computed; `app/` carries it out with tokio. Where the two
meet, the library asks for one thing of the system at a time and is handed the answer: a
resolution asks for canonical forms and entries, a replacement for files to be created,
written, synced and renamed, a run for a process and its output. Each of these is a type
with a `request` method and a `reply` method, and a model with `asks` and `after`, over
which the laws in the modules named `*_laws` are stated.

| module | what it is about |
| --- | --- |
| `path` | paths as bytes: components, prefixes, parents, joins |
| `request`, `workspace` | the workspaces of a request, and what lies in one |
| `resolve`, `resolve_write`, `search` | resolving a path to read or to write, in one workspace or several |
| `guard` | links, kinds and sizes of files |
| `atomic` | replacing a file in one step |
| `terminal`, `stream` | what a terminal shows of an output that is still being written |
| `output`, `command`, `runtime` | running a command, in the foreground or in the background |
| `text` | texts, bytes and numbers |

Paths follow the rules of POSIX: `/` separates components, and a path is absolute where it
starts with one. `app/` is for systems that follow them. Commands know the shells of both Unix and Windows.
