# simple_sandbox

The rules of `ssbx`, a sandbox tool for agents and the programs they run, as a library that is
verified with [Verus](https://github.com/verus-lang/verus).

A sandbox is described by a policy: what of the file system it reads and writes, what of the network
it reaches, how much memory and CPU it gets, which secrets become variables, and which backend runs
it. The library decides; the program under `app/` asks the host and carries out what was decided.

| module      | what it holds                                                              |
|-------------|----------------------------------------------------------------------------|
| `text`      | characters, numbers and lines                                              |
| `paths`     | Unix paths as text                                                         |
| `policy`    | policies, sizes, validation, resource preflight, host paths                |
| `digest`    | content hashes                                                             |
| `proxy`     | the allow set and the request machine of the CONNECT proxy                 |
| `mechanism` | requests to a backend, its answers, the backend trait                      |
| `krun`      | the libkrun backend, which is not there yet                                |
| `seatbelt`  | seatbelt profiles                                                          |
| `mac`       | the seatbelt backend                                                       |
| `podman`    | the command lines of the container backend and what their output means     |
| `state`     | the index of the sandboxes                                                 |
| `secrets`   | sources of secrets and the variables they become                           |
| `launch`    | every check between the command line and a request to a backend            |
| `cli`       | what the commands do with the index, and what they print                   |

Contracts speak of texts as sequences of characters. Where the host decides (a clock, a random id,
a program on the search path, a pool, locked memory), a function either takes the answer as an
argument or takes a function that gives it, and its contract says what holds for every answer.
Functions that start with `law_` state what holds of the library as a whole.

Paths are Unix paths in UTF-8. A number of CPUs is held as the text and the whole numbers that the
rules read, so that no floating point stands in the library.
