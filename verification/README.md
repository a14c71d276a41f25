# Clear XR

The shell of a virtual reality space: panels that hands point at, grab and click; a game
launcher; the desktop on a screen; notifications; a play space boundary; screenshots.

`src/` is the library. It holds what the shell decides and computes, and Verus proves it
against its contracts. `app/` is the program around it: Vulkan, OpenXR, the desktop window,
egui, files and processes. `tests/` runs the library.

## The library

Verus takes no floating point here. A number of the shell is a `Scalar`, the bit pattern of
an IEEE single, and the library computes with such patterns what IEEE 754 prescribes, bit by
bit: order, sums, products, quotients and square roots. On these rest the rays that meet
panels, the places of anchored panels and the walls of the play space. Angles stay in
floating point in `app/`, and so do the edge functions of triangles, which are evaluated for
every pixel.

| Module | What it holds |
| --- | --- |
| `scalar`, `rounding`, `root`, `seconds` | numbers by their bits, and arithmetic on them |
| `geometry` | vectors |
| `text`, `pixels` | text order and search, colors and pixel rows |
| `panel` | panel transforms, anchor modes, and where rays hit |
| `input` | controller state, and the dispatchers that turn it into events |
| `shell` | the shell itself; where its panels are, notifications, boundary, keyboard, launcher page, dashboard |
| `ui` | egui's textures and triangles in memory, and the plans for drawing them on a GPU |
| `app` | launched games and the Steam scan |
| `capture`, `screen_capture` | screenshots, captured frames and the cursor drawn in them |
| `config` | the configuration and its defaults |
| `renderer`, `vk_backend`, `mirror_window`, `launcher_panel` | choices of formats, devices, images and uploads |
| `desktop_session`, `xr_session` | what a session does on each event |
| `audio` | which samples a frame is made of |

Functions whose names begin with `law_` state what holds of several operations together.

## What is not proved

A few functions of the standard library have contracts that are taken on trust: lowercase
and whitespace (`text`), pushing to and popping from a `String` (`text`), the wall clock
(`capture::screenshot`) and the monotonic clock (`shell::notifications`).

The program expects its shaders under `shaders/` and the launcher page under `ui/`.
