# boom_ztf

A verified library for the ZTF side of an alert broker: it enriches alerts, runs filters over
them, and keeps a catalogue of orbits of minor planets and comets.

- `src/utils` — designations, calendar dates, MPCORB and comet lines, the stored catalogue and
  its refresh, BSON documents, and doubles held by their bit patterns.
- `src/enrichment` — photometry, the pipeline that fetches alerts, the association with moving
  objects, properties, classification, light curve fits, and what is written back.
- `src/filter` — filter pipelines, geometry for histories, results, and the alerts that are
  published.
- `app` — the ingest program, and the workers around the library: database, downloads,
  floating-point geometry and serialization.
- `tests` — tests of the library.

What each function does is stated in its contract, and `law_...` proof functions state what
holds across functions. Computations on floating-point numbers other than comparisons and
conversions are handed to the library as functions; contracts speak of what those return.

`Double` holds a number by the bits of its double-precision pattern. Numbers in single precision
are held by the double of the same value.
