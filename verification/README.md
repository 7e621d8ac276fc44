# ossup

A front end for `ossutil`, the command line tool of an object store, made for many files and large
ones: a transfer that broke off goes on where it stopped, what is up to date is not sent again, and
what arrived can be counted.

`src/` is the library, and Verus proves all of it. It holds the settings and the form in which they
are stored, the command lines, the file that the credentials stand in, the order in which a command
goes, and the reading of everything that `ossutil` prints. It touches no disk, no process and no
window. `src/outside.rs` holds all that is taken on trust from other crates.

`app/` is the program around it: the window, the files and the processes.

## What is proved of the library as a whole

- The file with the credentials is written before `ossutil` starts, for its owner alone, stands as
  long as `ossutil` runs, and is removed before the command is over, whatever else failed on the
  way. That the system does remove it when asked is taken for granted.
- Unless the user asks for it, no credentials stand on a command line.
- No two commands share a file with credentials.
- The interface learns that a transfer is over, and learns it once.
- Every transfer uses the same directory for what an interrupted one leaves.
- Settings that are saved load as they were, but for a count or a size of zero, which loads as its
  default.
- However the output of `ossutil` is cut into pieces, and whether its lines end in line feeds or in
  carriage returns, the same events come of it.
- The lines that both versions of `ossutil` print while they work are read for what they say.
- The host of a region tells the region.

A percentage is kept as what was printed or as two counts, and becomes a floating-point number only
in `app/`. Sizes are shown as the nearest double would be, worked out in whole numbers.
