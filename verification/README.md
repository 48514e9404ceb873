# media_kit

An image pipeline library — format sniffing, decompression-bomb guards,
resize geometry, EXIF orientation, encoding, compositing and variant
generation — whose logic is verified with Verus.

## Layout

- `src/` — the verified library.
  - `sniff` — magic-byte format detection, specified byte for byte.
  - `meta` — resource limits and the header-only bomb guard.
  - `bitmap` — decoded images as plain values (`Bitmap`, modelled by
    `BitmapView`), with the `image` crate's lossless pixel shuffles and
    decoding.
  - `resize` — fit geometry and the two resample backends (`image` and
    `fast_image_resize`).
  - `ratio64` — the `f64` arithmetic of the fit geometry (binary64 rounding
    of quotients and products, `round()`, saturating casts), reproduced
    exactly in integers.
  - `exif` — orientation (all eight, with their inverses), EXIF field
    extraction through `kamadak-exif`, and APP1 framing.
  - `encode` — output formats and encoding through the `image` crate.
  - `composite` — flattening onto a background, opaque pasting, paste
    clipping and watermark tiling geometry.
  - `pipeline` — the load / step / finish stages of a pipeline run.
  - `variants` — variant sets and their serial generation.
  - `testutil` — deterministic sample images.
- `tests/` — tests of the library on concrete values.
- `app/` — the runtime around the library: error messages, serializable
  configuration, alpha blending with a fractional opacity (floating point),
  the pipeline's run loop (blocking and async) and parallel variant
  generation.

Calls into the `image`, `kamadak-exif` and `fast_image_resize` crates go
through small trusted functions whose contracts are stated in their doc
comments; everything around them is proved.
