//! The source that the macros write, with `#name` where something is filled in.
//!
//! A blank stands between punctuation characters that are not one operator.

use vstd::prelude::*;

verus! {

/// A role as the name by which the access control knows it.
pub const ROLE_NAME: &'static str = "<_ as ::core::convert::Into<String>> ::into(#role)";

/// Who is trusted where there are bypass roles: their holders, and the active relayers.
pub const BYPASS_METHOD: &'static str =
    "fn is_trusted_relayer(&self, account_id: & ::near_sdk::AccountId) -> bool {
    if ::near_plugins::AccessControllable::acl_has_any_role(
        self,
        ::std::vec![#roles],
        account_id.clone(),
    ) {
        return true;
    }

    ::omni_utils::trusted_relayer::tr_relayers_map()
        .get(account_id)
        .is_some_and(|state| {
            ::near_sdk::env::block_timestamp() >= state.activate_at.0
        })
}";

/// The trait impl of a contract.
pub const TRAIT_IMPL: &'static str =
    "impl #impl_generics ::omni_utils::trusted_relayer::TrustedRelayer for #self_ty #where_clause {
    #override_method
}";

/// The public methods of a contract.
pub const PUBLIC_METHODS: &'static str = "#[::near_sdk::near]
impl #impl_generics #self_ty #where_clause {
    pub fn is_trusted_relayer(
        &self,
        account_id: & ::near_sdk::AccountId,
    ) -> bool {
        <Self as ::omni_utils::trusted_relayer::TrustedRelayer> ::is_trusted_relayer(
            self,
            account_id,
        )
    }

    #[payable]
    pub fn apply_for_trusted_relayer(&mut self) {
        <Self as ::omni_utils::trusted_relayer::TrustedRelayer> ::_tr_apply(self);
    }

    pub fn resign_trusted_relayer(&mut self) -> ::near_sdk::Promise {
        <Self as ::omni_utils::trusted_relayer::TrustedRelayer> ::_tr_resign(self)
    }

    #[::near_plugins::access_control_any(roles(#manager_roles))]
    pub fn reject_relayer_application(
        &mut self,
        account_id: ::near_sdk::AccountId,
    ) -> ::near_sdk::Promise {
        <Self as ::omni_utils::trusted_relayer::TrustedRelayer> ::_tr_reject(
            self,
            account_id,
        )
    }

    #[::near_plugins::access_control_any(roles(#config_roles))]
    pub fn set_relayer_config(
        &mut self,
        stake_required: ::near_sdk::NearToken,
        waiting_period_ns: ::near_sdk::json_types::U64,
    ) {
        <Self as ::omni_utils::trusted_relayer::TrustedRelayer> ::_tr_set_config(
            self,
            stake_required,
            waiting_period_ns,
        );
    }

    #[must_use]
    pub fn get_relayer_application(
        &self,
        account_id: & ::near_sdk::AccountId,
    ) -> Option< ::omni_utils::trusted_relayer::RelayerState> {
        <Self as ::omni_utils::trusted_relayer::TrustedRelayer> ::_tr_get_application(
            self,
            account_id,
        )
    }

    #[must_use]
    pub fn get_relayer_stake(
        &self,
        account_id: & ::near_sdk::AccountId,
    ) -> Option< ::near_sdk::json_types::U128> {
        <Self as ::omni_utils::trusted_relayer::TrustedRelayer> ::_tr_get_stake(
            self,
            account_id,
        )
    }

    #[must_use]
    pub fn get_relayer_config(
        &self,
    ) -> ::omni_utils::trusted_relayer::RelayerConfig {
        <Self as ::omni_utils::trusted_relayer::TrustedRelayer> ::_tr_get_config(self)
    }

    #[must_use]
    pub fn get_active_relayers(
        &self,
        from_index: Option<u32> ,
        limit: Option<u32> ,
    ) -> Vec<(::near_sdk::AccountId, ::omni_utils::trusted_relayer::RelayerState)> {
        <Self as ::omni_utils::trusted_relayer::TrustedRelayer> ::_tr_get_active_relayers(
            self,
            from_index,
            limit,
        )
    }

    #[must_use]
    pub fn get_pending_relayers(
        &self,
        from_index: Option<u32> ,
        limit: Option<u32> ,
    ) -> Vec<(::near_sdk::AccountId, ::omni_utils::trusted_relayer::RelayerState)> {
        <Self as ::omni_utils::trusted_relayer::TrustedRelayer> ::_tr_get_pending_relayers(
            self,
            from_index,
            limit,
        )
    }
}";

/// The statement that lets only callers through whom the contract trusts.
pub const GUARD: &'static str = "::near_sdk::require!(
    <Self as ::omni_utils::trusted_relayer::TrustedRelayer> ::is_trusted_relayer(
        self,
        & ::near_sdk::env::predecessor_account_id(),
    ),
    \"Relayer is not active\"
);";

/// The statement that lets only holders of the given roles and active relayers through.
pub const ROLE_GUARD: &'static str = "::near_sdk::require!(
    ::near_plugins::AccessControllable::acl_has_any_role(
        self,
        ::std::vec![#roles],
        ::near_sdk::env::predecessor_account_id(),
    ) || ::omni_utils::trusted_relayer::tr_relayers_map()
        .get(& ::near_sdk::env::predecessor_account_id())
        .is_some_and(|state| {
            ::near_sdk::env::block_timestamp() >= state.activate_at.0
        }),
    \"Relayer is not active\"
);";

/// The arm of a variant without fields: the message alone.
pub const UNIT_ARM: &'static str =
    "Self:: #variant => { ::std::convert::AsRef:: <str> ::as_ref(self).to_string() }";

/// The arm of a variant with fields by position.
pub const UNNAMED_ARM: &'static str =
    "Self:: #variant(#fields) => { format!(#format, ::std::convert::AsRef:: <str> ::as_ref(self), #fields) }";

/// The arm of a variant with fields by name.
pub const NAMED_ARM: &'static str =
    "Self:: #variant { #fields } => { format!(#format, ::std::convert::AsRef:: <str> ::as_ref(self), #fields) }";

/// The two impls of an error enum.
pub const DISPLAY_IMPLS: &'static str = "impl #impl_generics #name #ty_generics #where_clause {
    pub fn as_ref(&self) -> String { match self { #arms } }
}
impl #impl_generics std::fmt::Display for #name #ty_generics #where_clause {
    fn fmt(&self, f: &mut std::fmt::Formatter< '_>) -> std::fmt::Result {
        write!(f, \"{}\", self.as_ref())
    }
}";

/// Whether a text is one of the templates.
pub open spec fn is_template(text: Seq<char>) -> bool {
    ||| text == ROLE_NAME@
    ||| text == BYPASS_METHOD@
    ||| text == TRAIT_IMPL@
    ||| text == PUBLIC_METHODS@
    ||| text == GUARD@
    ||| text == ROLE_GUARD@
    ||| text == UNIT_ARM@
    ||| text == UNNAMED_ARM@
    ||| text == NAMED_ARM@
    ||| text == DISPLAY_IMPLS@
}

} // verus!
