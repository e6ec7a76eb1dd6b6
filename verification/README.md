# roshi

Verified core of the Roshi vault protocol: share accounting math, vault and
asset account state, oracle configurations, the authorized-action hash,
packed CPI account flags, the vault access allowlist merkle tree, the client
account lists of each instruction, instruction tags, and the program's
account loading.

- `src/` is the library, written and proved with Verus. Its only outside
  calls are SHA-256 (`solana-sha256-hasher`) and program-address derivation
  (`solana-pubkey`), each behind one trusted wrapper.
- `src/accounts/` holds the account loading of each instruction: which
  account stands at which position, what each must be (signer, writable,
  uninitialized, a given program), and the order in which the checks run,
  so which error a request is refused with. What the program's state,
  token and sub-account loaders read from an account's data comes in as a
  plain value (a decoded vault or ticket, a derived address, the outcome of
  a token-account check); every decision on those values is made and
  proved here, including the settlement loop over withdrawal tickets and
  the parsing of a swap's valuation accounts.
- `tests/` exercises the library with concrete values.
- `app/` holds what needs `wincode` and the Solana SDK types: instruction and
  account encoding, SDK instruction builders over the library's account
  lists, and error conversion.
