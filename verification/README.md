# cad_commands

Interactive editing commands of a drawing program, and the document operations
behind its plugin interface, verified with Verus.

- `src/` is the verified library. The commands (`pedit`, `hatchedit`, `spline`,
  `splinedit`, `lengthen`, `divide`, `ncopy`, `setbylayer`) are state machines:
  each method states in its `ensures` the next state and the answer as a function
  of the state, the input and what the geometry kernel computed. `polyline` holds
  the edits of polylines and meshes. `document` and the `doc_*` modules hold a
  drawing and the requests on it; `draw_panel` holds the decisions of the ribbon.
  `text` and `value` are the texts and numbers that all of them read.
- `tests/` runs the library on concrete values, with the outside crates linked.
- `app/` is the ordinary Rust around the library: floating-point geometry,
  conversion from and to `acadrust`, the plugin wire and the widgets.

Numbers are held by their IEEE 754 bit patterns. The library compares them and
passes them on; it computes no new ones. What has to be computed comes in as an
argument, and the contracts hold for every value of it.

A prompt or a label that the user reads in their own language is handed out as a
phrase, with the values to put into it, and comes back translated as an argument.

Laws that relate several operations (what a write lets a read see, what a refused
request leaves alone, what an undo restores) are public proof functions at the end
of the modules they speak of.

The layer and block tables are those of `acadrust`, the hash maps those of
`rustc-hash`. The contracts that are taken for granted of them stand in `tables`,
`handle_map`, `text`, `splinedit` and `doc_records`, each on a function marked
`external_body` or in an `assume_specification`, with a comment that says what it
claims.
