# zidian

A small Chinese character dictionary served over HTTP (look up a character,
a pinyin syllable, write hanzi from pinyin, parse a hanzi string into pinyin,
and a quiz), over an SQLite table `pyhz`.

- `src/` is the verified library: the HTML forms (`forms`), the dictionary
  records and the SQL text that reads them, the decoding of rows and the
  candidate list (`dbase`), upper-case hexadecimal code points and their
  decoding (`hex`), the service's answers and the step-by-step parse of a
  hanzi string (`handlers`), calendar dates through chrono (`dates`), and
  character helpers (`text`).
- `app/` is the axum server: routes, state, sqlx queries, template rendering.
- `tests/` runs the library on concrete values.
