# ComfyBox

ComfyBox installs ComfyUI and manages its models, workflows and custom nodes. Its rules are written
in Verus: what each function returns or changes is stated in its contract and proved.

- `src/` is the library. It decides; it touches no file, socket, process or terminal.
  - `catalog`, `config`, `state`, `auth`, `storage`, `inventory`: what is known and configured.
  - `download`, `install`: ranges, retries, endpoints, verification and publication of one file.
  - `jobs`, `queue`, `controls`: the download manager.
  - `comfy`, `clone`, `node_runtime`, `python_deps`, `steps`: installations, as state machines that
    say what is done next and take in what came of it.
  - `workflow`, `packages`, `actions`, `health`, `plan`, `dashboard`, `screen`: what the commands
    and the dashboard decide and show.
  - `text`, `paths`, `ids`, `size`, `json`: what the rest is built on.
  - `outside`, and the parser in `json`: calls into other crates, with the contracts that are
    believed of them.
  - `laws`: what holds of the library as a whole.
- `tests/` runs the library.
- `app/` is the program: commands, files, network, processes and the terminal.
