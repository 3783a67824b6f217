# cigen

cigen generates CI configuration (CircleCI, GitHub Actions) from a small set of
provider-agnostic files, and validates those files.

## Layout

- `src/` is the library, written in Verus: every function carries a contract
  that Verus proves.
  - `models.rs`, `schema/`: the configuration as the generators and the
    validators see it.
  - `providers/circleci/`: jobs and their steps (checkout, caches, job-status
    skipping), architecture variants, docker image builds and their base hash,
    the commands a configuration uses (the built-in template commands
    included), setup and dynamic pipelines.
  - `providers/github_actions/`: workflows, jobs, steps, caches and skip steps.
  - `validation/`: step references, references between jobs, services,
    caches and credentials (with the place in the source they are reported
    at), and the plan of which files a configuration directory is validated by.
  - `templating/`: variables and their precedence, include expansion, plain
    variable substitution, and the placement of template errors.
  - Calls into outside crates (SHA-256, regular expressions, MiniJinja error
    details, YAML read with positions, path extensions) go through a few
    trusted wrappers, each with a doc comment saying what its contract claims.
- `app/` is ordinary Rust around the library: YAML text, files and
  directories, the MiniJinja template engine, output formats with serde, and
  terminal diagnostics.
- `tests/` exercises the library from outside.
