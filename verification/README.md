# cuepool

The decisions behind a cue-based show controller, in Verus: what a build says
of itself, the cue list and its edit history, triggers, remote control, the
bookkeeping of video and lighting, and what the operator's desk does with keys,
menus and questions.

- `src/` is the library. Every function in it is verified against its
  contract. Laws that relate several functions stand beside them as public
  proof functions.
- `tests/` runs the library on concrete values.
- `app/` is a console program around the library: files, sockets, DMX output
  and everything in floating point.

Numbers in floating point are held by their bits (`ieee`), and compared there;
arithmetic on them is left to the application. Times are nanoseconds since the
program started.
