# Alchemist

Alchemist schedules active learning of machine-learned interatomic potentials. Each generation of a
project trains a committee of models, runs molecular dynamics, selects the structures on which the
committee disagrees, and prepares reference calculations for them.

`src/` is the planning core, written and proved in Verus. It reads no files and starts no programs:
it takes what was found and says what is to be done.

- `text`, `number`, `fields`, `order`, `binary64`: text, numbers as they are written, stable
  ordering, and the order of double-precision numbers by their bit patterns.
- `structure`, `dump`, `data`, `species`, `trajectory`: atomic structures, the formats they are read
  from, and mock trajectories.
- `selection`, `report`, `disagreement`, `mock_run`, `job_script`, `job_run`: which frames are
  selected, what is written of them, the job that computes disagreement with trained models, and the
  course that both take.
- `os_path`, `paths`, `effects`, `watching`: the paths of the system as text, where things lie, what
  is to be done to files, and which files decide.
- `backend`, `job`, `calls`, `dataset`, `pipeline`, `runner`, `copying`: the steps of a generation and
  how they are run, as machines that ask for something and go on with what they are told, and the
  copy of a project in which a dry run works.
- `config`, `preflight`: the configuration of a project, and what is looked at before it is run.
- `reading_back`, `trajectory_reading`, `literals`, `consistency`, `determinism`, `mock_laws`,
  `preparation`, `traces`: what holds of the parts taken together.

`app/` is the program around the core: arguments, configuration files, the file system, floating
point, and `alchemist-site`, the program of a computing site that lays out workspaces and submits
jobs.

A project is configured in `setup/config.toml`:

```toml
[project]
generations = 2

[training]
backend = "upet"       # or "n2p2"
energy_mode = "pet"    # or "raw"

[committee]
members = 4

[disagreement]
mode = "mock"          # or "real"
max_selected = 8
min_rrmse = 0.02
max_rrmse = 0.40

[execution]
runner = "slurm"       # or "local", or "dry-run"
```

`alchemist --init` sets up an installation, in `ALCHEMIST_HOME` or else in the local data directory
of the platform.
