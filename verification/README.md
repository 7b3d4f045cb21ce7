# crypto_algor

SHA-3, AES-128 and RSA, written in Verus with their behaviour stated as
contracts and proved.

- `src/sha3.rs`: the Keccak-f[1600] permutation and the SHA-3 sponge, with a
  mathematical model of the permutation and of the sponge.
- `src/aes/`: the AES-128 block cipher (S-box, key schedule, rounds) and the
  ECB, CBC and CTR modes over byte strings; decryption is proved to undo
  encryption, for single blocks and for each mode.
- `src/rsa/`: integers of any size (`bignum`, with the arithmetic of
  `num-bigint` behind trusted wrappers), Euclid's algorithm and the primality
  test, Fermat's little theorem, RSA keys, and the attacks on weak keys
  (Wiener's continued fractions, Fermat's factorisation).
- `src/attack_algor.rs`: the continued fraction of a ratio with 128-bit
  quotients.
- `app/`: the command-line programs around the library: file I/O, argument
  parsing, the random retry loops of prime generation, and floating point.
