# tapado

A Q-learning agent that learns its way through a 10x10 maze. Verus verifies
the rules of its world (moves, rewards, episodes, controls) and the Q-table's
reads, writes and choices; the learning arithmetic itself (the Bellman
update and the decrement of epsilon) is binary32 floating point and lives,
unverified, in `app/`.

- `src/` is the verified library:
  - `binary32`: binary32 numbers held by their encodings, with IEEE 754
    classification, ordering and maxNum;
  - `grid`: the maze, its squares and the shipped layout;
  - `qlearning`: actions, the Q-table (reads, writes, greedy action, best
    value, exploration-rate floor, parameter ranges) and the epsilon-greedy
    choice;
  - `agent`: moves, rewards, one step of the agent with the episode
    bookkeeping, laws over any number of steps, and the keyboard controls
    (speed, pause, reset, parameter panel);
  - `hud`: the texts of the heads-up display.
- `app/` is the Bevy program around it: window, sprites, keyboard, timers,
  and the binary32 arithmetic (Bellman update, epsilon decrement, screen
  layout, printing of the exploration rate).
- `tests/` exercise the library on concrete values.
