# paint

The painting engine of a browser, with its decisions written in Verus: what is drawn when, by which
painter, through which surfaces, and who is told.

`src/` is the library. Every function in it states what it returns and what it changes, and Verus
proves it.

- Native composition: `geometry`, `region`, `tiles`, `stale`, `dense`, `surface`, `surface_entry`,
  `external_surface`, `external_present`, `dcomp_compositor`, `end_frame`, `end_frame_laws`,
  `readback`, `resize_rebuild`.
- Display timing: `ticks`, `output_grid`, `window`, `commit_scheduler`, `refresh_driver`.
- Frames of a painter: `frame_queue`, `frame_delayer`, `composite_latch`, `painter`,
  `painter_images`, `painter_input`, `painter_render`, `painter_webviews`, `paint_metrics`.
- Frames across painters: `wall_frame`, `wall_frame_laws`, `wall_metadata`, `scroll_signature`,
  `pacing`, `paint`, `paint_pacing`, `paint_messages`, `paint_webviews`, `paint_embedder`.
- Content: `web_content_animation`, `web_content_animator`, `video_convert`,
  `webrender_external_images`.
- Settings and reports: `settings`, `text`, `debug_options`, `profile`, `memory_report`.
- Tables and lists: `table`, `fx`, `idmap`, `seqs`.

What relates several functions is stated as a public proof function whose name starts with `law_`.
Calls into `euclid`, `rustc-hash` and `webrender_api` stand behind small functions in `geometry`, `fx`
and `debug_options`, whose contracts are believed, not proved.

`app/` is the crate around the library: threads, clocks, the environment, the renderer and the
graphics system. Floating-point values (scales, offsets, colors, animated values) live there; the
library knows them by handles or as their bits.

`tests/` runs the library from outside.
