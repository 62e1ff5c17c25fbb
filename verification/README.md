# Valhalla

React for the desktop: React and Tailwind in JavaScript, run by QuickJS,
rendered natively through GPUI.

The React reconciler emits mutation ops, one JSON array per commit. The host
reduces them onto a scene tree and renders that tree; events go back to JS by
handler id.

## Layout

- `src/` is the verified library (Verus). It holds the scene tree and the
  exact effect of every op, the Tailwind class subset, the `style` prop
  reader and its colour grammar, bundle and asset resolution, the decisions
  of the Vite HMR loop, the widget decisions of the renderer, and the logic
  of the headless smoke test (its command line, subtree text, and the search
  for the button a label names). Each public function states what it returns
  in its `ensures`; the `law_*` proof functions state properties that span
  several calls.
- `app/` is the host around it: the GPUI window and render walk, the QuickJS
  runtime and event dispatch, the Vite HTTP and WebSocket I/O, the wire
  format of ops (serde), and the headless program.
- `tests/` runs the library on concrete values.

Floating-point values stay out of the library: a numeric class or style
amount is checked there to be a float literal and handed on as text, and the
renderer turns it into a float.
