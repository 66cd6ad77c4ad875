# aa_bundler

Native ERC-4337 bundling for a block builder, written and verified in Verus.

User operations wait in a pool, highest priority fee first; of each sender only
the operation with the lowest nonce is in line. Once a block has used the
configured part of its gas, the bundler takes as many operations as the
reserved gas has room for. Per EntryPoint version, those that fit below the
maximum gas of a bundle become one `handleOps` transaction. Operations that were
included leave the pool; the others wait for a later block.

- `src/` is the verified library. Each function's contract says what it
  returns or changes; functions named `law_*` state what holds across
  functions. Calls into `alloy-sol-types` (ABI encoding), `sha3` (Keccak-256)
  and `rdkafka` (client configuration) stand behind small functions whose
  contracts are trusted.
- `tests/` runs the library on concrete values.
- `app/` is the plain Rust around it: command line, Kafka consumer, locks.
