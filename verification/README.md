# anime_bot

A Discord bot that posts pictures of anime characters and records the
scores (keycap reactions one to five) that users give them.

- `src/` is the verified library: the catalogue and the order in which it
  is loaded into the database (`data::config`), the saved-file index and
  its update from downloads (`data::cpu`), reading picture rows and
  choosing between the picture queries (`data::database`), the catalogue
  types (`data::user`), message and reaction handling as a step function
  (`discord::bot`), errors, and decimal rendering (`text`).
- `app/` is the program: YAML files, PostgreSQL queries, HTTP downloads and
  the Discord client, each handing its answers to the library.
- `tests/` runs the library on concrete values.
