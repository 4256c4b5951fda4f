# sl

A steam locomotive crosses the terminal. The library computes every frame
of the animation and is verified with Verus; `app/` runs it on a real
terminal with crossterm and clap.

Three variations of the program share the library:

- `classic`: options `-a -F -l -c`, quits on `q` or Control-C, follows
  resizes, and drops smoke that has drifted off the right edge;
- `tui`: single-letter flags in any grouping, every character drawn in its
  own cell, every puff of smoke kept;
- `plume`: adds `-1` (start at the bottom), draws ASCII text by runs and keeps
  at most 256 puffs.

`frame` models what a frame prints and proves that both ways of clipping
paint exactly the visible part of a text and nothing outside the screen;
`terminal` holds the set-up and restoring of the terminal and the input
events; `art` the pictures; `geometry` the placement arithmetic.
