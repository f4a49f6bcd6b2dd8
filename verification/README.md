# Sign-uniform interval analysis

A verified library for describing where a signed distance field is negative,
positive, unknown or undefined along one axis.

- `src/sign.rs`: the four signs and how they combine (union, difference, flip).
- `src/order_key.rs`: integer order keys that stand for `f32` positions.
- `src/boundary.rs`: sign boundaries and their pairwise union, difference and
  intersection, over single boundaries and over lists and mappings of them.
- `src/interval.rs`: intervals of uniform sign, their overlap, decomposition,
  union and difference.
- `src/intervals.rs`, `src/listing.rs`: sets of boundaries kept in ascending
  order, and the iterator over the intervals between consecutive boundaries.
- `src/overlaps.rs`: which intervals of one set overlap which of another.
- `src/handle_stack.rs`: cyclic choice of mesh handles by index.
- `app/lib.rs`: the `f32` side: conversions between positions and order keys,
  and floating-point helpers.
