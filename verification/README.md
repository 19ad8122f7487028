# ed25519_batch

Batch verification of Ed25519 signatures, written and proved in Verus.

A `Verifier` has a policy (`Zip215`, the cofactored equation, or `Dalek`, the
cofactorless one with the exclusions of legacy verifiers) and a cache of public
keys. `verify_batch` writes one result per request, and its contract says that
each result is `signature_valid` of the request: a statement over integers, bytes
and points of the curve that mentions neither lanes nor tables nor the cache.

- `math/` holds the proofs about numbers: that `2^255 - 19` is prime, that the
  curve constant and two are not squares, that the addition law is complete, and
  that the points form a group.
- `field`, `edwards` and `tables` are the arithmetic of points and the tables of
  their small multiples; `scalar` and `sha512` give the digits of scalars and the
  challenge.
- `signature` and `policy` say when a signature is valid.
- `wide` has the ladders and the equations for eight lanes, `chunk` and `batch`
  prepare them, and `verify` puts it all together.
- `cache` has the trait for caches and two caches; `steps` says how a chunk and a
  batch change what a cache holds, hit by hit and insert by insert, and `rounds`
  what that makes of a key in a cache with room.
- `base_order` proves the order of the base point, and `laws` what holds of the
  library as a whole, such as that signatures made by a signer are valid.
