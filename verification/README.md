# qemu-launcher

Starts virtual machines from configuration files in YAML notation, and pins the
tasks of their vCPUs to host CPUs by means of cpuset control groups.

The logic is a library that Verus verifies. It does no input or output: where a
file has to be read or a line to be written, it says so, and takes the reply.

## The library, `src/`

| Module | What it holds |
| --- | --- |
| `config`, `launcher_options`, `vcpu_pinning`, `command_line` | the configuration of a machine |
| `yaml` | documents in YAML notation, read by the `yaml_rust` crate |
| `arguments`, `environment` | how the launcher itself was started |
| `cpuset`, `cpuset_run` | isolating host CPUs and moving tasks onto them, and what holds of whole operations |
| `cpu_list`, `task_status` | what the kernel writes about CPUs and tasks |
| `qmp`, `json_value`, `topology` | asking qemu for the tasks of its vCPUs; messages are read by the `json` crate |
| `process`, `launcher` | starting qemu, and what is done around it |
| `events` | who listens to which events |
| `error`, `exchange`, `pairs`, `variables`, `path`, `text` | what the others are built from |

Contracts speak of mathematical models: each type has a view, and each function
that reads a text has a specification function that says what the text means. An
operation that takes several steps, such as a pinning, is a state with a next
action and a state after each reply. Laws about whole operations are public proof
functions.

What is not proved is what the two parser crates make of a text. Their results
have names, and the few functions that call them are marked
`#[verifier::external_body]`. That the ids which the standard library gives to
types tell them apart is not proved either.

## The program, `app/`

The program around the library: files, pipes, mounts, child processes and
messages to the user.
