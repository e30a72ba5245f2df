# buoyant

The verified core of a declarative UI layout and rendering library for
embedded displays, written in Verus.

- `src/primitives`: points, sizes, rectangles, circles and rounded
  rectangles; layout dimensions and proposals; integer and 9.7 fixed-point
  interpolation; chart coordinates; and `StaticAABBTree`, a fixed-capacity
  bounding-volume hierarchy of rectangles, held in a fixed array, used to
  track damaged regions (queries and drains hand back the rectangles they
  find in a `Vec`).
- `src/render`: render-tree nodes, how two trees are joined at an animation
  factor, what an animated render of an appearing or disappearing subtree
  draws, and the content shape of each node.
- `src/transition`: the offsets and opacities of views that appear and
  disappear.
- `src/event`, `src/focus`, `src/harness`: events, their results, and a
  helper for sending focus events.

The functions in `src` are verified by Verus: their bodies are proved
against their `requires`/`ensures` contracts, and laws that relate several
functions stand as public proof functions (`lemma_*`). The exceptions are
the six small wrappers in `src/primitives/unit_point.rs` that call the
`fixed` crate; their contracts are trusted, not proved. Some helpers, such
as constructors whose result is plain from their body, carry only the
contract their callers need. `app/lib.rs` holds what stays outside the proofs: conversions
to and from `embedded-touch` and `embedded-graphics-core` types, text
output, and float coordinates.
