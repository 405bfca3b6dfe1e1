# garbg

The verified core of a wallpaper daemon for the gar window manager.

- `src/` is the library, verified with Verus: playlists and their navigation, the daemon's
  decisions for each command and window-manager event, the disk and frame caches, the
  compositing of per-monitor wallpapers, the upload of pixels in server-sized requests,
  animation timing, the IPC protocol, source listings (local directories, HTTP indexes,
  GitHub, S3) and the command line's handling of sources.
- `tests/` exercises the library on concrete values.
- `app/` is the program around it: the command line, the X11 connection, sockets, files,
  network fetches, image scaling and the daemon's event loop.

Not part of this project: video wallpapers (playing MP4/WebM/MKV files through FFmpeg).
Video files are still recognised by extension, so that sources list them with their media
type, but nothing decodes or plays them. AVIF is a recognised still-image format; decoding
it needs the `image` crate's native AVIF decoder, which this build does not enable, so an
AVIF file is reported as an image that failed to decode.
