# kitties

A registry of kitties, verified with Verus. Accounts create kitties from
their DNA; each account owns a list of kitties that never outgrows a limit;
owners hand kitties to other accounts.

- `src/types.rs`: kitties, genders, origins, events, errors.
- `src/owned.rs`: an owner's bounded list of DNAs (push within the limit,
  taking a DNA out). FRAME keeps this list in a `BoundedVec` whose bound is a
  type implementing `Get<u32>` chosen by the runtime; the library holds the
  list in a `Vec` and the bound as a value, with `try_push` proved to behave
  as `BoundedVec::try_push` does.
- `src/assoc.rs`: sequences of key/value pairs read as maps.
- `src/model.rs`: the storage as mathematical values, what each call and the
  genesis build do to it, and the consistency that every call keeps.
- `src/pallet.rs`: the storage and the calls, proved against `model.rs`; the
  decisions of the calls also stand alone (`create_kitty_step`,
  `transfer_kitty_step`) for a runtime that keeps the storage itself.
- `src/laws.rs`: what holds of the calls over any storage, among them that
  creation and transfers to another account keep ownership exact (every
  kitty listed once, under its owner; the count equals the stored kitties).
- `app/lib.rs`: the same storage in FRAME's storage types, with the
  runtime's currency (only logged), clock and limit, calling the library's
  decisions; its events go to the System pallet.
