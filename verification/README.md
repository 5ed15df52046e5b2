# cyberpixie

The protocol, storage and control logic of Cyberpixie, a persistence-of-vision LED strip
device, as a Verus-verified library.

- `src/` is the verified library:
  - `proto`: request and response headers, the peer and image types, and packet framing
    (an eight byte little endian prefix with the header and payload lengths);
  - `storage`: block devices, the image reader over a block device and the endless
    iterator over the lines of an image;
  - `app`: the storage contract of a board, its derived operations (current image,
    switching to the next image) and the decisions taken on each client request;
  - `links`, `message`, `pixels`, `time`, `render`, `softap`, `errors`, `io`: peer links,
    payload readers, pixel layout, timer steps, rendering statistics, the soft access point
    receive buffer, error codes and the exact-size reader trait.
- `app/` holds what Verus does not see: the `postcard` wire encoding of the headers (with
  copies of the header types that carry the `serde` derives), `embedded-io` adapters and the
  asynchronous request loop of a device.
- `tests/` exercises the library.
