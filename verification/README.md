# pico_limbo (Floodgate support)

Backend-side handling of the Floodgate data that a Geyser/Floodgate proxy forwards in the
handshake hostname, with its behaviour stated in Verus contracts and proved.

- `src/floodgate.rs`: settings, reading the hostname (`parse_hostname`), decrypting and
  parsing the payload, and the player profile (`game_profile`).
- `src/identity.rs`: the UUIDs of Bedrock and education players.
- `src/text.rs`, `src/numeric.rs`: NUL splitting and joining, UTF-8 truncation, decimal
  formatting and `i64` parsing, with their laws.
- `src/config.rs`, `src/forwarding.rs`: the configuration types and their defaults.
- `src/laws.rs`: properties of hostname reading across all inputs.
- `src/bindings.rs`: the calls into `aes-gcm`, `base64`, `sha2`, `uuid` and `std`, each
  with the contract that is trusted.
- `app/`: serde forms of the configuration, reading the key file, `uuid::Uuid` values.
