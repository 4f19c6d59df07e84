# dynamic

Building blocks of a dynamic GraphQL schema, with an API-neutral layer that
also serves a Protobuf service, and the pieces that expose database entities
through it. The library is written in Verus: each public function states in
its contract what it returns, and the proofs are checked by Verus.

## Layout

- `src/` — the verified library.
  - `type_ref`, `value`, `accessor`, `name_map`, `text`, `message`: type
    references, values, typed reads of values, objects and lists, a
    name-ordered map, and the text of values and errors in messages.
  - `meta`, `schema`, `object`, `registry`, `builder`: schema types (enums,
    unions, scalars, objects, interfaces), the checks that an object or an
    interface implements what it claims, how each type is described to a
    schema, the type registry and the schema builder.
  - `interface`: the layer shared by both APIs: errors, type references,
    enum items, accessors, and objects that become GraphQL types.
  - `context`, `naming`, `outputs`, `inputs`, `filter`, `condition`,
    `mutation`, `query`, `sql_value`: the configuration and names of the
    objects built for database entities, pagination inputs, filter input
    types and the reading of filter arguments into conditions, mutation
    fields and guards, relation fields, and the values returned for
    database values.
- `tests/` — tests of the library on concrete values.
- `app/` — what surrounds the library: database types read into the
  library's types, the text of values and errors, serde and juniper
  conversions, and type-erased resolver values.
