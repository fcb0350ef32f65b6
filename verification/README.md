# galaxy_md

A Markdown viewer whose rendering decisions are proved against their contracts.

- `src/` is the verified library:
  - `text`: whitespace, trimming, joining and decimal numbers over characters;
  - `events`: the Markdown events the plain text reads and the parser options,
    with the call into `pulldown-cmark` behind a trusted wrapper;
  - `plain`: the fold of a document's events into the text of the
    "Select Text" view, and its laws;
  - `sections`: grouping of rendered items under their headings;
  - `viewer`: the viewer's state machine and the file-watcher filter;
  - `theme`: palette colours as bytes.
- `app/` is the libcosmic program around it: windows, widgets, file reading,
  file watching and opening links.
- `tests/` runs the library against the real parser.
