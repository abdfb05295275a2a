# machined

The management layer of a node: it configures network, disks and time, runs a
container runtime and the workload on it, answers a management API, and builds
the disk images that nodes boot from. There is no shell; one YAML file says what
a node is.

`src/` is the library: what is decided and computed, with contracts that Verus
proves. It touches no file, socket or clock. Where a decision needs the outside
world, the library says what is to be done next and takes in what came of it:
partitioning a disk, changing a link, running a pod, fetching an artifact and
building an image are such runs.

| module | what it is about |
|---|---|
| `resources`, `controllers` | the typed resources, and the controllers that reconcile them: network, block, runtime, time |
| `block` | disks, partition tables, file system probing, and a backend in memory |
| `config` | the machine configuration and the container runtime as a service |
| `cri` | the container runtime interface, and a runtime in memory |
| `apiserver`, `machinectl` | the management service and its command line |
| `imager` | packages, kernel modules, initramfs archives, boot loaders and disk images |
| `ip`, `paths`, `order`, `text` | addresses, paths, byte order of names, and text |

`src/imager/codec.rs`, `src/imager/image.rs` and `src/text.rs` hold the functions
of other crates and of std that the proofs rest on, each with what is relied upon.

`app/` is the program around it: files, devices, sockets, YAML and TOML, gRPC and
the command lines. `tests/` runs the library.
