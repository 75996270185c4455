# ac4_player

A desktop player for AC-4 object audio, split in two.

`src/` is the player's logic as a verified library: every function states what it
does in `requires` and `ensures`, and Verus proves it.

- `decoder` reads scenes: the index of a file, seeking, the bounded queue, the
  metadata timelines, and the demonstration programme.
- `backend` plays them: render quanta, the producer of a native session, the silent
  preview, the settings and the output's state machine.
- `head_tracking`, `posebridge` and `hptf_profile` serve the listener.
- `playlist`, `library`, `file_catalog` and `media` keep the collection.
- `inspection`, `bitstream_ui`, `playlist_ui`, `licenses` and `install_check` say
  what the window shows.
- `numeric`, `text`, `words`, `order` and `paths` are shared.

Floating-point values appear in the library as bit patterns. Where a value is
interpolated, `decoder::level` keeps the terms and the caller evaluates them.

`app/` is the program around the library: the window, the threads, the files, the
database, and everything that computes in floating point. The codec and the audio
renderers are handed to it through the traits of `app/engine.rs`.

`tests/` runs the library from outside.
