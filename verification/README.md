# chain_react

Authentication that reacts to current Lineage chain state, verified with Verus.

The purchased game item is the entitlement. A player signs a fresh server challenge with the key
of a registered Lineage address, and the server checks that the address owns the required item
now. Once the item is transferred away, authentication fails.

## Layout

- `src/` is the verified library. It makes every decision; it does no input or output of its own
  beyond the system clock and the random source.
- `app/` is the command line: arguments, files, and the balance service.
- `tests/` runs the library on known values.

## Settings

`Game.toml`:

```toml
use_blockchain_auth = 1
required_item = "ge862a974002715c4f45859a5bd6b489"
```

`use_blockchain_auth = 0` lets everybody in, for local game development. The tables `[mempool]`
(`url`) and `[server]` (`registry_file`, `challenge_file`) may be left out.

## Flow

```text
chain_react register
chain_react challenge
chain_react validate <PUBLIC_KEY> <CHALLENGE>
chain_react authenticate <PUBLIC_KEY> <CHALLENGE> <SIGNATURE>
```

A challenge is 13 bytes, `0x6a`, an 8-byte random nonce and `0xF9BEB4D9`, and is good once. The
exact bytes are signed.

## What is proved

- A server that asks for proof lets a player in exactly if the public key is registered, the
  signature is one of the challenge under it, the registered address is its own and owns the item
  now, and the challenge is the one on file and unused (`server::let_in_exactly_if_entitled`).
- A refusal leaves the challenge as it was; a success uses it up (`server::challenge_lets_in_once`).
- A player who registers, signs with the same wallet and owns the item is let in
  (`server::registered_owner_is_let_in`).
- Hex text, wallets, the registry and challenges have their own laws beside their functions.

The cryptography, the JSON parser, the clock and the random source are taken on trust, each behind
a function whose contract says what is claimed of it.

This is a local proof of concept: `wallet.json` holds plaintext recovery material.
