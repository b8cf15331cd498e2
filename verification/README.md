# mcmm

A command-line manager for the mods of a Minecraft server, with its logic verified by Verus.

- `src/` is the verified library: the project file (`config`, kept in key order by
  `strmap`), command-line reading (`cli`), the answers of the mod site (`structs`), request
  URLs and id resolution (`request`), the commands' decisions (`tool`), string and number
  helpers (`text`, `decimal`), error texts (`error`), and the calls into `urlencoding`,
  `url`, `regex` and `std::path` behind trusted contracts (`trusted`).
- `app/` is the program around it: terminal, files, HTTP, processes, TOML and JSON
  (de)serialisation, tables and progress bars.
- `tests/` runs the library on concrete values.
