# Corsair Elite Display

Turns a Corsair Elite LCD cooler into a 480x480 second Windows screen: a
virtual monitor is added to the desktop, captured with GDI, encoded as JPEG
and streamed to the cooler over HID at up to 30 frames a second. While
streaming is off, a saved image or GIF can be shown on the LCD instead.

## Layout

- `src/` is the verified library (Verus). Its functions have contracts
  that Verus proves, except a few small trusted wrappers around calls into
  the `image` crate and std (JPEG encoding, image and GIF decoding, UTF-8
  and UTF-16 decoding, upper-casing), whose contracts state what those
  calls are documented or seen in their source to do:
  - `device`: the LCD's HID reports, image packets (with the law that the
    packets of a frame reassemble to the frame), CRC-32, the animation
    segment, interface recognition, error texts and the vendor-library
    flashing sequence.
  - `restore`: handing the LCD back to its hardware screen.
  - `frame`: turning a captured BGRA frame into the RGB frame that is
    encoded (channel order, rotation, brightness) and placing the cursor.
  - `media`: JPEG encoding through the `image` crate, hardware images and
    GIFs, GIF frame timing.
  - `playback`: the OFF-mode playback decisions (retries, animation order).
  - `stream`: monitors, which one is streamed, and the streaming worker's
    decisions (fresh frames, keepalive, reconnect delays, frame pacing).
  - `tray`: the notification-area menu and what its commands do.
  - `settings`: `settings.ini` reading and writing (with the round-trip law)
    and the startup registration texts.
  - `virtual_display`: the virtual monitor's EDID (with its checksum law),
    driver configuration and the steps of switching it on and off.
  - `admin`: the elevated driver helper and its result file.
  - `launch`: choosing what a start of the executable does.
  - `pe`, `probe`: read-only inspection of the vendor DLL.
  - `text`: character, number and UTF-16 helpers.
- `app/` is the Windows program around the library: the tray window, GDI
  capture, HID and registry access, threads and timing.
- `tests/` runs the library on concrete values.
