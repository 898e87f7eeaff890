# GoPro Cam

A tray program that turns a GoPro in webcam mode into a webcam, as a verified
library with a thin program around it.

- `src/` is the library, proved with Verus: the transport-stream demultiplexer
  (`mpegts`), the frame geometry, buffer pool and decoder protocol (`mf_decode`), the
  OBS Virtual Camera's shared-memory queue (`obs_vcam`), the preview (`control`,
  `nv12`, `preview`), the camera's HTTP dialect and its discovery (`http`, `gopro`),
  the streaming session and its watcher (`session`, `watch`), the tray's menu and
  windows (`menu`, `tray`, `startup`), and the Linux program's loop and setup
  (`linux`, `linux_setup`). `text` holds what all of them need of text.
- `tests/` runs the library.
- `app/` owns sockets, files, processes, threads, windows and the Windows decoder. It
  carries out what the library decides and reports what came of it.

On Windows the frames go to the OBS Virtual Camera, so OBS Studio has to be installed
(it does not have to run). On Linux they go through `ffmpeg` to a `v4l2loopback`
device.
