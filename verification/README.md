# lumi_web

The verified core of Lumi's web client: the reading, annotation, learning,
community and account logic of the browser application, with contracts and
proofs checked by Verus.

- `src/` is the library. Each module states its functions' results over
  mathematical models (`Seq`, `Map`, spec functions), and the laws that
  several calls obey are public proof functions named `law_*`.
- `tests/` runs the library on concrete values.
- `app/` is the browser side: requests to the Lumi API, cookies, timers and
  the DOM, each handing plain values to the library and acting on what it
  decides.

Outside crates are called from the library only behind trusted items:
`bip39` (recovery phrases) in `src/account.rs`, `sha2` in `src/digest.rs`,
and a few standard-library string functions in `src/text.rs`.
