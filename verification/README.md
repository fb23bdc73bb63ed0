# udemy_dl

Plans the download of course material from Udemy. The planning logic in
`src/` is proved by Verus against its contracts; three small trusted items
stand for `String::push`, the `regex` crate and `serde_json`'s text parser,
and `app/` carries the plans out without proofs.

- `src/` is the verified library:
  - `json`: the JSON tree the parsers read, its lookups, and reading it
    from text (through `serde_json`);
  - `parser`: course lists, curricula and lecture details read out of JSON,
    with the record decoding rules spelled out;
  - `command`: the course and portal names read from a course URL (the
    regular expression is matched by the `regex` crate);
  - `downloader`: finding the course among the subscribed ones, the URLs to
    fetch, keeping the access token;
  - `download`, `complete`, `info`: what each command does, as plans: which
    chapters and lectures, which directories and files, which URLs, which
    video quality, which request bodies, which lines to show;
  - `udemy_helper`, `path`, `utils`, `text`: file and directory names,
    '/'-separated path arithmetic, sanitising, decimal numbers;
  - `mocks`, `test_data`: sample data and stand-ins.
- `app/` is the command line program: options, HTTP, the file system,
  progress bars, and the loops that carry the plans out.
- `tests/` runs the library on concrete inputs.
