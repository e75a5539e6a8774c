# GuardPetal

GuardPetal is a local-first terminal program for looking at a home network
from the machine it runs on. Scan data is kept in a local SQLite database;
the sensitive fields (MAC address, hostname, raw evidence) are encrypted
under a key derived from the user's passphrase with Argon2id, and devices are
matched across scans by a keyed HMAC of their MAC address.

## Layout

- `src/` is the library, verified with Verus:
  - `text.rs`: Unicode white space, trimming, words, decimal numerals.
  - `cli.rs`: the prompt's commands and yes/no answers, with the laws that
    `device <id>` selects device `id` and that surrounding white space does
    not change a command.
  - `primitives.rs`: the calls into the cryptography, encoding, compression,
    JSON, time and identifier crates and into the system's clock and random
    source, each with its stated contract.
  - `crypto.rs`: field encryption (ChaCha20-Poly1305 with a random nonce,
    in Base64), compression, keyed hashing, key derivation; what is
    encrypted decrypts back.
  - `vault.rs`: first-boot setup and unlocking; a vault set up with a
    passphrase unlocks with it.
  - `storage.rs`: the rows that a scan stores and what reading them back
    gives: each device row reads back as its device, and the raw evidence,
    written as JSON, compressed and encrypted, reads back as that JSON.
  - `scanner.rs`: the stand-in scanner and its evidence.
  - `settings.rs`, `render.rs`: settings and the text of each screen.
- `app/` is the program around it: the terminal, the settings file, the
  database and the passphrase prompts.
- `tests/` runs the library on concrete values.
