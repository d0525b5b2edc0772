# daily_folder

A daily folder organizer: each day it creates a dated directory such as
`2025/03 marzo/15` under a root directory, links to it from the root (and
from extra places such as the Desktop), and creates a `printed` (or
`impresos`) sub-folder once the day directory holds more files than a
threshold or a file with a trigger extension (`pdf`, `png`, ...).

The decisions live in the library (`src/`), each with its contract:

- `date`: calendar dates, the next day, date ranges, and the calls into
  `chrono` for formatting and parsing.
- `daily_folder::template`: expansion of path templates, with `%B` taken from
  a month-name table.
- `link_name`: flattening of a relative path into a single link name.
- `paths`, `trigger`: joining paths with the platform's separator, file
  extensions, and the rule that calls for the printed folder.
- `windows_path`: Windows path prefixes (`C:`, `\\server\share`, the
  verbatim `\\?\` forms) and path parts, for joining paths there.
- `links_db`: the record of created links, which links to make for a day,
  and the cleanup of stale entries.
- `settings_doc`, `toml_doc`: the commented default configuration file,
  built with `toml_edit`.
- `daily_folder` and `daifo`: the two flavours of the program (Windows
  shortcut files, or directory symbolic links), each with its settings,
  operations and command-line decisions.
- `tray_menu`: what a click on the tray icon's menu does to the console.

`app/` holds the program around it: command line, logging, configuration
and JSON files, the file system, the tray icon and the daemon loop.
