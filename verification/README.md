# qlib_data

Keeps a local store of daily stock quotes (one CSV file per symbol under
`source/`) up to date for qlib, and normalises the stored tables.

- `src/` is the library, verified with Verus:
  - `util.rs`: the CSV line recording one day's quote under a file's headers;
  - `source_data.rs`: reading a stored file, and the decision for one stored
    file when a day is updated (skip, already present, no quote, or the quote
    it takes, written by any row formatter or by a built-in one), with the
    law that once the planned line's fields are among a file's records,
    planning the same day again leaves the file alone (a law
    over the records: whether the appended text reads back as those fields
    rests on the CSV reader and is not proved);
  - `normalize_data.rs`: which columns the price adjustment and the
    normalisation scale, and where a normalised table is written;
  - `command.rs`: the command line's types and the day a command updates
    (the date given, defaulting to the current day).
- `app/` is the program around it: the command line parser, fetching the
  realtime quotes, the directory walk and file writes, and the polars
  arithmetic.
