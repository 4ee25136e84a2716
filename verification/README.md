# plte_cli

A command-line tool that downloads Portland local tech events from
[Calagator](https://calagator.org), saves them as CSV files, imports the CSV
files into MongoDB collections and shows or searches the documents.

- `src/` is the library, verified with Verus: reading the home page calendar
  (through `select`) and the events and venues feeds (through `serde_json`)
  into rows, the rows' columns and database fields, and the menus' decisions.
- `app/` is the program around it: standard input and output, downloads
  (`reqwest`, `tokio`), CSV files (`csv`) and MongoDB (`mongodb`).
- `tests/` runs the library on concrete inputs.
