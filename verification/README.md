# The Temple of Texts

An infinite grid of octagonal rooms. Four walls of each room are doors; the
other four are covered with text. The text on a wall is the room's position
and the wall's direction, encoded as bytes and encrypted with a key drawn at
random when the game starts. Recovering the key wins the game.

The library is verified with Verus:

- `code`: the checksummed base64 codes that save a game, and the byte formats
  behind them (`SerdeBytes`, `Serde`); what is written is read back.
- `crypto`: the Rijndael substitution box (computed and proved equal to the
  table), the byte-stream cipher over it, and the proofs that decryption undoes
  encryption.
- `num`: unbounded signed coordinates in bijective base 256, stepping by one,
  their byte format, and the bit-interleaving `combine` of two coordinates.
- `utils`: plain and bijective base-256 digit strings, and the text box.
- `state`: the walker, its moves and turns, and what it sees.

`app/` holds the interactive loop on standard input and output.
