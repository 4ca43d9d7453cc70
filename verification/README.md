# stacks_payload

Reads the payload of a Stacks transaction from bytes, answers questions about it,
and shows it item by item and page by page on a two-line screen. The library is
written in Rust and verified with Verus.

- `input`: bytes and big-endian numbers off the front of a slice, through nom.
- `parser_common`: names, addresses and principals.
- `token_transfer`, `smart_contract`, `contract_call`: the three kinds of payloads.
- `payload`: a payload of any kind.
- `c32`: addresses as text. The checksum comes from sha2.
- `text`: short texts that are kept inline, in arrayvec vectors.
- `zxformat`, `display`: labels, decimal numbers and pages.
- `laws`: what holds of the library as a whole, with proofs.

Whether the device is in expert mode, in which calls may have any number of
arguments, is a setting of the device. Functions that depend on it take it as an
argument.

`app` makes the reader available as a nom parser.
