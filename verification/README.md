# hdr_screenshot

A Windows screenshot tool for HDR desktops, split into a verified library
(`src/`, checked by Verus) and the program around it (`app/`).

`src/` holds the logic that works on plain values, each function with a
contract and the laws that relate them:

- `pixels`: reading mapped desktop surfaces (8-bit BGRA and 16-bit float
  RGBA, rows `pitch` bytes apart), red/blue swapping, the dimmed overlay
  background, and cropping the selected region out of a frame.
- `dib`: the bottom-up 24-bit device-independent bitmap handed to the
  clipboard, header included.
- `selection`: the overlay's drag state machine, the highlighted rectangle,
  and the selection reported when the overlay closes.
- `capture`: the retry policy for acquiring a desktop frame and the HDR
  format check.
- `workflow`: hotkey and keyboard-hook decisions, which files a capture
  writes, and their names.

`app/` holds what needs Windows APIs (DXGI capture, GDI overlay window,
clipboard, WIC encoding), file and console I/O, and the floating-point tone
mapping.
