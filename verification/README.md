# game-gem

A 2D game library whose data-and-decision core is verified with Verus.

- `src/` is the verified library (`game_gem`): images and the asset cache,
  keyboard/mouse state and remappable actions, hex color parsing, animation
  playback stepping, tween loop/ping-pong cycles, the scene stack with queued
  transitions, UI widget interaction state and UTF-8 text editing, audio
  voices, particle emission counts, spatial-hash pair queries and the
  frame-time sample window. Each public function carries a contract, and the
  `law_*` proof functions state properties that span several calls.
- `app/` is the engine around it: everything that computes on `f32`/`f64`
  (math, colors, cameras, collision geometry, particles, easing curves,
  audio mixing, timing), the scene and game-state traits that games
  implement, and the game loop.
- `tests/` exercises the library on concrete values.
