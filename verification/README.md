# tnviewer

The logic of TNViewer, a tool for reviewing the actual land use
(tatsächliche Nutzung) of parcels in ALKIS, as a Verus-verified library.

- `src/` — the verified library. Each public function states in its contract
  what it returns; the laws (public `lemma_*` proof functions) state what
  holds across functions: parcel identifiers (`xlsx`), the CSV data set and
  its two storage forms (`csv`), NAS-XML as a tree (`xml`), the change
  requests and their XML (`david`), the NAS import and the objects of the
  NAS data by their attributes (`nas`), owner lists and header texts of the
  survey sheets (`geograf`), the GRAFBAT.out file with its ids and its groups
  per sheet (`grafbat`), the land-use catalogue and its search (`search`), the HTML of
  the user interface (`ui`, `ribbon`, `popover`, `screen`), the settings
  (`konfiguration`, `pdf`), searching parcels, buildings and pieces and
  locking new areas (`lib.rs`), and the sorted maps and text functions they
  rest on (`sorted_map`, `collation`, `text`, `seq_lemmas`). Geometry (in
  floating point) stays with the caller: the library holds what its logic
  reads of it, such as a polygon's hash and its GML text.
- `tests/` — tests on concrete values.
- `app/` — the entry points around the library: JSON in and out, decoding
  uploaded files, and printing the coordinates and angles that the library
  writes into GRAFBAT.out. Reading polygons, the PDF and image exports and
  the rest of the geometry (floating point) are not part of this crate; the
  NAS import takes the number of polygons of each object from the caller.

Maps are `SortedMap` (src/sorted_map.rs), a vector of entries kept in
strictly increasing key order, rather than std's `BTreeMap`: vstd specifies
`BTreeMap` only for key types whose order it knows to be a total order, and
the keys here are mostly `String`s. `SortedMap` iterates in the order
`BTreeMap` does, and its contracts state lookups, insertion and iteration
over its entries.
