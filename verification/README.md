# notema_image

Images for a terminal journal's fullscreen viewer, with the logic verified by Verus.

A terminal that has a graphics protocol (Kitty, iTerm2, sixel) shows the image itself; any other
shows coloured ASCII art. Images are decoded and encoded by a background worker. The runtime asks
the worker for builds, folds what comes back into a cache, and tells the viewer what to paint where.

* `src/` is the verified library. `laws.rs` states what holds of the runtime as a whole, over what
  is sent and received on the worker's channels: that warming and viewing go by the same key, that
  no build is requested twice, that every result taken is folded in, that builds in flight at a clear
  are ignored, that an image is loading exactly while its request is outstanding, that a
  runtime with a worker of the detected mode caches no build of the other backend.
* `app/` queries the terminal, runs the worker threads and paints. The asset store is a trait there.
* `tests/` runs the library with the real encoders.
