# herdr-sidebar

A Herdr action that forks the OpenCode conversation of the focused pane into a
right-hand split, or focuses the split that already shows its fork.

The decisions are a verified library (`src/`, checked with Verus):

- `cli` reads the command line and the configuration taken from the environment.
- `opencode` finds the OpenCode process of a pane, forms requests to OpenCode's API
  and checks its answers.
- `herdr` holds Herdr's view of panes, the arguments of Herdr calls and the judgement
  of whether a side pane has attached.
- `state` holds the durable record of side panes and operations in progress.
- `workflow` is the fork-or-focus state machine: it records intent before every
  remote side effect and never repeats an operation whose outcome is unknown unless
  asked to.
- `next_run` states what one invocation's stored record makes the next invocation do:
  a created side pane is focused from its source pane, and from itself unless an earlier
  mapping shows it as its side pane; a lost fork is refused, a lost launch is adopted, and
  a side pane that did not attach in time is reused.
- `process` judges a running command (poll, done or timed out) and its result, reading
  its output as JSON through serde_json; together
  with the lock wait in `state` and the attach wait in `herdr`, every wait is bounded.
- `error` and `text` hold the error texts and string helpers.

`app/` is the program around it: it reads the environment, locks and writes the state
file, runs Herdr and OpenCode as bounded subprocesses, and feeds their outcomes to the
workflow.
