# statusbar

A status line for a window manager that reads its text from the root
window's name (dwm and similar): a row of components (processor, disk and
memory use, volume, wireless network, time, battery, the playing track),
each updated on its own schedule, joined by spaces.

- `src/` is the verified library: schedules and their alignment to the wall
  clock (`schedule`), the single-threaded driver that decides which component
  is due (`executer`), the joining of outputs (`status`), what each component
  makes of its readings (`component`), and the text handling they share
  (`text`).
- `app/` is the program: it reads the system (`/proc`, `statvfs`, ALSA,
  MPRIS, `nmcli`, the battery, the clock), runs one task per component and
  sets the root window's name over X11.
- `tests/` runs the library on concrete values.
