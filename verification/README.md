# ffscreencast

Streams the screen of a Windows machine to browsers over WebRTC: the desktop is
captured, encoded by the graphics card and sent with the sound of the machine to
every viewer who knows the password.

## Layout

- `src/` is the library. It holds the decisions and computations of the program:
  what is captured, how frames are read and cut into units, how often key frames
  come, who may log in, how an offer is answered, what the menu and the settings
  dialog show and do, which release is newer. Every function states what it does
  in its contract, and Verus proves it. Laws that span several functions are
  public proof functions beside the functions that they speak of.
- `src/trusted.rs` holds what the library takes from std and from other crates
  without proof, each with the contract that is relied upon.
- `tests/` runs the library.
- `app/` is the program around the library: threads, sockets, the graphics and
  sound systems, the windows of the desktop, and what is computed in floating
  point. It performs the steps that the library asks for and reports what came of
  them.
