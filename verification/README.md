# toucan

A browser and editor for packet descriptions: YAML files that list packets, their
fields, and the bits of their bit fields.

- `src/` is the verified library. `model` holds the data model and the handling of
  a description file's bytes; `tree` views the model as a tree of nodes with cells;
  `pather` packs tree paths into integer ids; `tree_model` and `viewer` are the item
  models that answer a view's questions about rows, parents and cells; `role` and
  `decimal` hold the numeric roles and the decimal text of ids.
- `app/` is the QML front end: file reading and writing, YAML parsing, and the
  toolkit adapters that forward every question to the library.
- `tests/` exercises the library on concrete models.
