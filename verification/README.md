# spca561

Userspace capture for the Sunplus SPCA561A (Rev072A) USB webcam, USB ID `04fc:0561`, with a live
preview window.

`src/` is the verified library. It does no I/O:

| Module | Subject |
|--------|---------|
| `bayer` | geometry of a frame, and the picture that a GBRG mosaic stands for |
| `frame` | assembling packets into frames |
| `assembly` | what assembly guarantees over whole runs of packets |
| `iso` | isochronous transfers: their sizes, and the packets they hold |
| `ppm` | saved pictures and their names |
| `tables`, `camera` | register tables, and the scripts that bring the camera up and down |
| `registers` | what the scripts leave in the bridge's registers |
| `sequencer` | running a script against a bus that may fail or stall |
| `control` | the control transfers by which registers are read and written |
| `endpoint` | which endpoint to stream from |
| `pacing` | when the window loop reports, draws and ends |
| `text` | numbers in text, and the lines that the program reports with |

`app/` is the program around it: USB transfers through rusb and libusb, the window, files. `spca561`
shows the live view (Esc quits, S saves `frame_NNNN.ppm`); `spca561 rife-probe [model]` prints the
tensor contract of a RIFE ONNX model.

Licence: GPL-2.0-only.
