# two_phase_commit

Two-phase commit between one coordinator, several clients and several
participants, each a process of its own, talking over IPC channels.

`src/` is the verified library. Each role is a state machine that decides and
counts; the program in `app/` performs the I/O those machines ask for.

- `message`: the protocol messages and the unknown marker on transaction ids.
- `tally`: how a transaction ends, the decision messages for each outcome, and
  the committed / aborted / unknown counts each role keeps.
- `client`: numbers and issues requests one at a time (`protocol` starts a run,
  `next_request` issues the next request), counts their results.
- `participant`: votes on proposals and applies global decisions.
- `coordinator`: runs rounds over the clients, collects votes, decides and
  broadcasts; `Coordinator::protocol` is one step from an event to the effects
  to carry out and what to wait for next.
- `text`: decimal numerals, padding, substring search, the status line.
- `laws`: properties of the protocol across roles and across steps.

`app/` spawns the processes, wires the channels, keeps the operation logs,
draws the random operation and send outcomes, enforces the vote deadline and
handles Ctrl-C.
