# Accordo

Accordo runs development services together, in a tabbed view of their terminals
or as one merged feed of their logs. What it decides is a library verified with
Verus; the program around it does the input and output.

## Layout

- `src/` is the verified library.
  - `config` checks configurations and settles where services run.
  - `supervisor` names what happens to services; `actor`, `cleanup` and `reader`
    are the state machines of the tasks that run a service, end its processes and
    read its output.
  - `logs` cuts streams of bytes into records.
  - `pty` plans how processes start and how replies reach a terminal.
  - `terminal` keeps a service's screen, its history and its replies, on top of
    vt100. A screen has at least two rows and three columns, and services are told
    the size that it has.
  - `app` is what is known of all services and what keys and events do to it.
  - `view` lays out and draws the tabbed view and handles its input.
  - `session` holds the two kinds of session, from the first check to the exit
    code.
  - `text` writes numbers.
- `tests/` runs the library against the crates that it builds on.
- `app/` is the program: arguments, files, processes, terminals and signals. It
  tells the state machines what happened and does what they answer.

## What is proved

Every function of the library has a contract that says what it returns and
changes. What holds across functions stands beside them as proof functions: that
processes of a service never overlap, that a process group keeps its time to
terminate before it is killed, that nothing of a log is lost however its bytes
arrive, that all output of a run is queued before its end, that a scrolled-back
view keeps its place, that a failure is remembered, that the panes fill the
screen, and more.

Where the library calls vt100, ratatui, tui-term or the standard library, a
declared contract says what the call does. What such a call draws or interprets
has a name there and no definition.
