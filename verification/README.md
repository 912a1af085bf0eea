# omni-utils-core

Utilities for NEAR smart contracts, with contracts that Verus proves.

- `near_expect`: unwrapping with the message that a contract call has to end with.
- `promise`: what a contract call returns.
- `relayer_map`, `config`, `event`, `relayer_error`, `trusted_relayer`: the registry of staked
  relayers, on plain values. `contract` decides who is trusted and who may do what; that generated
  code decides in the same way is seen by reading its templates, not proved.
- `laws`: what holds of the registry as a whole, from conservation of stakes to paging.
- `tokens`, `templates`, `syntax`: token streams, the source that the macros write, and the parts
  of Rust source that they look at.
- `macro_args`, `relayer_macro`: `#[trusted_relayer]`.
- `error_display`: `#[derive(ErrorDisplay)]`, for enums that implement `AsRef<str>`.

`app/` is the side that faces the host: storage, promises, logs, and the entry points of the
macros.

## `#[trusted_relayer]`

```rust
#[trusted_relayer(
    manager_roles(Role::Admin, Role::RelayerManager),
    config_roles(Role::Admin),
    bypass_roles(Role::Relayer),
)]
#[near]
impl Contract {
    #[trusted_relayer]
    pub fn relay(&mut self) { /* active relayers and holders of Role::Relayer */ }

    #[trusted_relayer(bypass_roles(Role::SpecialRelayer))]
    pub fn special(&mut self) { /* active relayers and holders of Role::SpecialRelayer */ }
}
```

- `manager_roles(...)` may reject relayers. It is required.
- `config_roles(...)` may set the configuration; without it the managers may.
- `bypass_roles(...)` need no stake. A contract with `custom_is_trusted_relayer` decides by
  itself who is trusted, and cannot have bypass roles.
- Without arguments an impl block only gets the guards of its marked methods.
