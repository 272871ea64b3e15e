# clipferry

A lazy, event-driven X11 <-> Wayland clipboard bridge.

`src/` is the library. It takes every decision of the bridge, as state machines
and functions on plain values, and each function states and proves what it
does:

- `broker` — who owns a selection, and what has to be claimed for it;
- `selection`, `app` — the events of both sides, and the actions they ask for;
- `action` — what the bridge asks its surroundings to do;
- `laws` — what holds of the bridge as a whole: nothing the bridge claims is
  ever bridged back, claims fill voids only, every request is answered once,
  what was captured survives its source;
- `mime` — which types cross, under which names, and what is made of them;
- `payload` — clipboard bytes in memory that is zeroed when it is dropped, cut
  in chunks and gathered up to a cap;
- `transfer` — pastes in both directions, in one piece or in increments;
- `x11`, `wayland` — what is read off the two connections;
- `cli`, `logging`, `sandbox`, `text` — options, log lines, the sandbox's
  verdicts, and text helpers.

`app/` is the daemon around it: sockets, pipes, timers, threads and the
Landlock sandbox. It performs the actions and hands back what came of them.

`tests/` runs the library on concrete values.
