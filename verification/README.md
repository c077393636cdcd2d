# midn

An experimental LTE/5G core network library, verified with Verus.

- `src/auth`: Milenage (TS 35.206) over AES-128, SQN/AMF/key types, the
  Keccak sponge under TUAK.
- `src/proto`: NAS (EPS and 5GS) codecs and NAS security (128-EEA2,
  128-EIA2, COUNT handling), ALIGNED PER with the S1AP and NGAP codecs,
  GTP-U headers.
- `src/kdf.rs`, `src/hss.rs`: the TS 33.220 KDF and the key chains of
  EPS-AKA and 5G-AKA; the in-memory HSS with its 48-bit SQN.
- `src/mme`, `src/ecs`, `src/core_ecs`: the MME attach, detach and
  release procedures over the subscriber store.
- `src/amf.rs`: the AMF's state (its subscriber store, IMSI registry and
  HSS); its Registration procedure is not written yet.
- `src/userplane`: the uplink and downlink GTP-U fast-path decisions, on
  frame bytes and route tables.

Each public function states what it returns, or how it changes its
arguments, in its `ensures`; the proof functions named `law_*` state what
holds across several calls (codec round trips, identifier reuse, the one
teardown path of the MME, checksums that verify at the receiver).

`app/` holds what runs around the library: the C ABI of the Milenage
functions and the asynchronous S1AP entry point.
