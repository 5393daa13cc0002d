# everything

A universal data format for knowledge bases, as a verified library.

An *object* is abstract (an identity), a character, or a *structure*: a
finite set of properties, each pairing a tag object with a value object.
Statements `(subject, tag, value)` are kept in a store; objects that follow
the node layout are expressions, which the library reads back, evaluates
and calls. The store's row and value encodings are here too.

Layout of `src/`:

- `object`: objects, properties and structures, their total order, and
  integers as chains of successors or predecessors.
- `nodes`, `parse`: expression nodes, how each is written as an object, and
  how an object is read back as a node or an integer.
- `statements`, `eval`, `base`, `knowledge`: the statement store and its
  queries, the evaluator with its context, the base statements, and the
  check that a store is knowledge.
- `objects`, `validate`: the first object layout, with its statement and
  knowledge validation.
- `time`, `ids`, `ff`, `values`, `content`, `rows`, `istr`, `inline`: time
  values, identifiers, the kind bytes, and the value and row encodings.
- `depth`: a depth counter.

`app/` opens and maps the database file and holds the values with
floating-point coordinates.
