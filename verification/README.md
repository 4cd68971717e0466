# zigistry

The indexer behind the Zigistry registry of Zig packages and programs. It
searches GitHub and Codeberg for Zig repositories, reads each one's
`build.zig.zon`, README and releases, and keeps a libSQL database of them up
to date.

## Layout

- `src/` is the library, verified with Verus: the `build.zig.zon` tokenizer
  and parser (`bzz_stuff`), the text helpers (`text`), the records and write
  plans of a repository with every text cut to its column (`records`,
  `database`), the decisions of the GitHub and Codeberg crawlers (`github`,
  `codeberg`), the batch jobs (`jobs`) and the index page sections
  (`sections`). Calls into `std`, `regex`, `stop-words` and
  `keyword_extraction` go through small trusted wrappers whose contracts
  name what those calls return.
- `app/` is the program around it: HTTP requests, the database, the serde
  forms of the API records, the Python keyword extraction, and the loops
  that drive the library's decisions.
- `tests/` holds the tests of the library.
