# yang_push

Validation of YANG-Push notifications, with the rules of the validation stage
proved in Verus.

- `src/` is the library. It does no I/O: each function moves a state on and says
  what is to be done outside. `actor_model.rs` describes the validation actor as
  functions on its state, and `validation.rs` carries them out. The files that end
  in `_laws.rs` state what holds of each part as a whole.
- `app/` connects the library to channels, metrics, NETCONF sessions and libyang.
- `tests/` runs the library.

The library trusts what is said in `fx.rs` of hash maps hashed with `rustc_hash`,
in `text_channel.rs` of tokio's watch channel and of `Arc`, and in `text.rs` of
`String::push`.
