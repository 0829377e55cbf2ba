# Breakbar

The verified core of Breakbar, a multi-launcher for Guild Wars 2: it starts several game clients
side by side, each with its own login (`Local.dat`) in a profile of its own, and starts companion
apps such as Blish HUD with them.

- `src/` is the library, verified with Verus: the game's command line, the profile folders, the
  decisions of a launch (which client, whether it sets up the login, when it owns its login, which
  process took over from a client that restarted), the order of a launch (the game's data folder points at the account only while its client
  starts, and is pointed back on every path), the junction steps, Steam's libraries, the PE
  header check, the account list with its Steam lock, toasts and selection, the overlay, the
  command line and the texts of the errors.
- `tests/` runs the library on concrete values.
- `app/` is the program around it: reading and writing files and the registry, starting and
  watching processes, and the Win32 calls.

The window, with its tray icon and the "start with Windows" setting, is not part of this build:
its Slint UI sources are not included. The program runs from the command line
(`breakbar --launch <NAMES>`); the decisions the window makes (the account list, the overlay,
the tray entries, the startup checks) are in the library and verified there.
