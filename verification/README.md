# gamebot

A Discord bot that announces the games its members start playing, gives each
player a role named after the game (`__<game>`, coloured by a hash of the name),
and takes those roles back, deleting the ones nobody holds, when they stop.

- `src/` is the verified library (Verus): message and log texts, the choice of
  announcement, role names and colours, where the bot's roles are placed, which
  roles are taken back and deleted, how events are routed between the main loop
  and the per-server loops, the registry of per-server handlers, and the path of
  each server's settings file. Laws about them are public proof functions.
- `app/` is the program: the Discord connection and calls, the threads, and the
  JSON settings files.
- `tests/` runs the library on concrete values.
