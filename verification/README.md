# sonate

A small UI engine: a document of nodes with attributes, CSS style sheets
cascaded onto them, flexbox layout, hit testing, and a C interface that runs
engines in this process or in a worker process.

## Layout

- `src/` is the verified library, checked with Verus:
  - `document`: the node tree (an arena of slots addressed by id) and its
    operations, with the structural invariant and laws on reparenting,
    attributes and node creation;
  - `style`, `sheet`: style values, the cascade (`merge` and its laws), style
    sheets, and selector matching by tag and class;
  - `parser`, `declaration`, `colors`, `chars`, `words`: what CSS tokens mean
    (properties, keywords, units, shorthands, hex and named colors) and which
    style fields a declaration sets;
  - `flex`, `hit_test`, `paint`, `measure_cache`: the non-numeric decisions of
    layout, hit testing and painting, and the text-measurement cache;
  - `engine`, `registry`, `html`, `platform`, `text`, `id`: commands and the
    layout schedule of the data thread, the engine table behind the C
    interface, loading HTML, platform choices, and what each window event
    asks of the application (`window`).
  Lengths and flex factors are generic over their numeric type, so pixel
  arithmetic stays with the code that instantiates it.
- `app/` is ordinary Rust around the library: CSS tokenizing with cssparser,
  pixel layout and painting, the data thread, the C functions, worker
  processes and the HTML viewer.
- `tests/` exercises the library on concrete inputs.
