# snow_devil

The verified core of the Snow Devil desktop workspace for GitHub, written in
Verus.

- `src/` is the library. Its own logic is verified; the calls it makes into
  std and outside crates (`reqwest`'s header map, `url`, `base64`, `chrono`,
  the clock) stand behind small trusted wrappers whose contracts state what
  those calls return:
  - `retry`: the retry policy for transient GitHub failures (rate limits and
    server errors), with the header parsing it rests on;
  - `browser`: the bounded pool of resident browser webviews (activation,
    hiding, eviction, closing) and the URLs its tabs show;
  - `organizations`: organization summaries of the viewer's profile and the
    classification of repository access;
  - `repo`: repository content requests, image previews and code search;
  - `flow`: planning of paged source requests and the recently merged cutoff;
  - `paging`: paged listings read by page number or by cursor;
  - `diagnostics`, `update`, `viewer`: small value types and helpers;
  - `text`: character-level string helpers.
- `tests/` runs the library on concrete values.
- `app/` is the Tauri shell around it: commands, HTTP requests, file access.
