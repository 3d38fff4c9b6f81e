# sendit

Push the current branch and open (or update) a GitHub PR with a title and body
you write yourself.

The decisions of a run are a verified library (`src/`, checked by Verus):

- `context`: the preflight checks, one command at a time, and the trunk choice;
- `git`, `gh`: the commands run and what their output means;
- `editor`: the editor template and how the edited text is read back;
- `pr`: create-or-update, the `gh` arguments, the URL and number of the PR;
- `session`: the whole run as a state machine (request out, answer in);
- `summary`, `error`, `cli`, `command`, `text`: the rest.

`app/` is the binary around it: it parses the command line, runs `git`, `gh`
and the editor, reads JSON and the terminal, and hands each result back to the
session until it finishes.
