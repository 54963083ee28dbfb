# exam_archive

A searchable archive of university examination papers: a crawler that
mirrors the papers from a DSpace repository, an indexer that extracts their
metadata and files them into a clean folder hierarchy, a search server over
an SQLite FTS5 index, and a few maintenance tools.

The decisions all of these make are a library verified with Verus (`src/`):

- `text`, `numbers`: characters, trimming, searching, splitting, decimal text.
- `patterns`, `title`: course-title cleaning with the regex crate.
- `display`, `records`, `query`, `search`, `serving`, `archive`: what the
  server shows, the SQL it runs, the files it serves and the batch archives it
  builds.
- `catalog`, `metadata`: what the indexer reads from a paper and where it files it.
- `crawl`: the crawler's walk over the repository, its retries, and the checks
  every download passes.
- `tools`, `clock`: command lines, the storage sync, the dataset audit, the year.

`app/` holds the programs themselves (HTTP, files, the database, threads),
which call the library for every decision. `tests/` runs the library on
concrete inputs.
