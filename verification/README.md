# vpxtool_gui

The browsing logic of a graphical front end for Visual Pinball tables,
verified with Verus.

- `src/` is the verified library: wrapping indices around the table count,
  the window of list rows around the selection, the shortest way round the
  ring of table images, moving the selection by a keyboard step, the texts
  of list rows, display names and the info panel, and the info panel's
  section cycle.
- `app/` is the Bevy application around it: windows, UI nodes, input,
  timers and easing (all floating point), image loading and the message
  channel. It calls the library for every index and text decision.
- `tests/` exercises the library on concrete values.
