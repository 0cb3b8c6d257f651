# xleak

View spreadsheets (.xlsx, .xls, .xlsm, .xlsb, .ods) and CSV/TSV files in the
terminal: as a table, as CSV/JSON/text exports, or in an interactive viewer.

The library under `src/` holds the logic, written in Verus with its contracts
proved:

- `cell`, `number`, `dates`, `text`: cell values and their text forms
  (thousands grouping, dates from spreadsheet serials), with the text helpers
  they rest on;
- `sheet`, `source`, `csv_file`: sheets read from ranges or CSV records, served
  eagerly or lazily through a row cache;
- `display`, `export`: the non-interactive table view and the CSV/JSON/text
  exports;
- `state`, `viewer`, `event`, `jump`, `keys`, `theme`, `layout`, `progress`:
  the interactive viewer as a state machine driven by key presses, and the
  computations behind its screen;
- `cli`, `utils`: the command line's decisions (including which mode to
  run) and file type detection;
- `clipboard`: the terminal sequence (OSC 52, base64) that copies text.

The program under `app/` reads the command line and the files (spreadsheets
through calamine), prints the reports, and runs the terminal user interface
(crossterm and ratatui) around the library's state machine.
