# ci

A small Git-native CI runner. It installs itself into a local or bare Git repository,
behaves like Git hooks, runs workflows from `.ci`, and runs GitHub and Gitea workflow files
locally.

- `src/` is the library: how arguments, settings, conditions and workflow files are read,
  which workflows run and in which order, what each step does and how a run ends, and how
  the tool is put into a repository and taken out. All of it is verified with Verus: each
  function states in its contract what it returns, and the promises that relate several
  functions are proved as `law_…` proof functions.
- `app/` is the program around it: files, processes, containers, messages.
- `tests/` runs the library on concrete values.

The library never touches the machine. Where a decision depends on it, the library says
what has to be known (`condition_targets`, `step_questions`, `job_questions`), takes the
answers as plain values, and gives back what to do (`StepPlan`, `RunPlan`, `InstallPlan`).
