//! The events of the relayer registry, and the log lines that announce them.

use vstd::prelude::*;
use crate::text::{decimal, joined, law_numeral, numeral};

verus! {

/// What happened to a relayer. Stakes are in yoctoNEAR, times in nanoseconds.
#[derive(Clone, Debug)]
pub enum TrustedRelayerEvent {
    RelayerApplyEvent { account_id: String, stake: u128, activate_at: u64 },
    RelayerResignEvent { account_id: String, stake: u128 },
    RelayerRejectEvent { account_id: String, stake: u128 },
}

/// The same, with the account by its characters.
pub enum EventView {
    Apply { account_id: Seq<char>, stake: u128, activate_at: u64 },
    Resign { account_id: Seq<char>, stake: u128 },
    Reject { account_id: Seq<char>, stake: u128 },
}

impl View for TrustedRelayerEvent {
    type V = EventView;

    open spec fn view(&self) -> EventView {
        match self {
            TrustedRelayerEvent::RelayerApplyEvent { account_id, stake, activate_at } =>
                EventView::Apply {
                account_id: account_id@,
                stake: *stake,
                activate_at: *activate_at,
            },
            TrustedRelayerEvent::RelayerResignEvent { account_id, stake } => EventView::Resign {
                account_id: account_id@,
                stake: *stake,
            },
            TrustedRelayerEvent::RelayerRejectEvent { account_id, stake } => EventView::Reject {
                account_id: account_id@,
                stake: *stake,
            },
        }
    }
}

/// Text that JSON takes between quotes as it is: no quote, no backslash, no control character.
pub open spec fn is_plain(text: Seq<char>) -> bool {
    forall|i: int|
        0 <= i < text.len() ==> ' ' <= #[trigger] text[i] && text[i] != '"' && text[i] != '\\'
}

/// A text between quotes.
pub open spec fn quoted(text: Seq<char>) -> Seq<char> {
    seq!['"'] + text + seq!['"']
}

/// A JSON object of one member, whose value is an object of string members, where every text
/// is plain.
pub open spec fn plain_json(tag: Seq<char>, members: Seq<(Seq<char>, Seq<char>)>) -> Seq<char> {
    seq!['{'] + quoted(tag) + seq![':', '{'] + joined(
        members.map_values(|m: (Seq<char>, Seq<char>)| quoted(m.0) + seq![':'] + quoted(m.1)),
        seq![','],
    ) + seq!['}', '}']
}

/// Whether all texts of such an object are plain.
pub open spec fn all_plain(tag: Seq<char>, members: Seq<(Seq<char>, Seq<char>)>) -> bool {
    &&& is_plain(tag)
    &&& forall|i: int|
        0 <= i < members.len() ==> is_plain(#[trigger] members[i].0) && is_plain(members[i].1)
}

/// What serde_json writes for an object of one member, whose value is an object of string
/// members.
pub uninterp spec fn tagged_json(
    tag: Seq<char>,
    members: Seq<(Seq<char>, Seq<char>)>,
) -> Seq<char>;

/// The members of an object by their characters.
pub open spec fn members_of(list: Seq<(&'static str, String)>) -> Seq<(Seq<char>, Seq<char>)> {
    list.map_values(|m: (&'static str, String)| (m.0@, m.1@))
}

/// `near_sdk::serde_json::Value::to_string` on an object whose one member, named `tag`, is an
/// object of strings. The text depends on these alone. Where no text needs an escape, each
/// stands between quotes as it is; members keep the order in which they were put in, as
/// near-sdk has serde_json built, and nothing stands between the tokens.
#[verifier::external_body]
fn tagged_object(tag: &str, members: Vec<(&'static str, String)>) -> (json: String)
    requires
        members_of(members@).map_values(|m: (Seq<char>, Seq<char>)| m.0).no_duplicates(),
    ensures
        json@ == tagged_json(tag@, members_of(members@)),
        all_plain(tag@, members_of(members@)) ==> json@ == plain_json(tag@, members_of(members@)),
{
    let named = |m: (&'static str, String)| (m.0.to_owned(), near_sdk::serde_json::Value::String(m.1));
    let inner: near_sdk::serde_json::Map<String, near_sdk::serde_json::Value> =
        members.into_iter().map(named).collect();
    let mut object = near_sdk::serde_json::Map::new();
    object.insert(tag.to_owned(), near_sdk::serde_json::Value::Object(inner));
    near_sdk::serde_json::Value::Object(object).to_string()
}

impl EventView {
    /// The kind of the event.
    pub open spec fn tag(self) -> Seq<char> {
        match self {
            EventView::Apply { .. } => "RelayerApplyEvent"@,
            EventView::Resign { .. } => "RelayerResignEvent"@,
            EventView::Reject { .. } => "RelayerRejectEvent"@,
        }
    }

    /// The account that the event is about.
    pub open spec fn account(self) -> Seq<char> {
        match self {
            EventView::Apply { account_id, .. } => account_id,
            EventView::Resign { account_id, .. } => account_id,
            EventView::Reject { account_id, .. } => account_id,
        }
    }

    /// What the event says: the account, the stake, and for an application the activation
    /// time, with numbers in decimal.
    pub open spec fn members(self) -> Seq<(Seq<char>, Seq<char>)> {
        match self {
            EventView::Apply { account_id, stake, activate_at } => seq![
                ("account_id"@, account_id),
                ("stake"@, numeral(stake as nat)),
                ("activate_at"@, numeral(activate_at as nat)),
            ],
            EventView::Resign { account_id, stake } => seq![
                ("account_id"@, account_id),
                ("stake"@, numeral(stake as nat)),
            ],
            EventView::Reject { account_id, stake } => seq![
                ("account_id"@, account_id),
                ("stake"@, numeral(stake as nat)),
            ],
        }
    }
}

impl TrustedRelayerEvent {
    /// The line that the contract logs for the event.
    pub fn emit(&self) -> (line: String)
        ensures
            line@ == tagged_json(self@.tag(), self@.members()),
            is_plain(self@.account()) ==> line@ == plain_json(self@.tag(), self@.members()),
    {
        let mut members: Vec<(&'static str, String)> = Vec::new();
        let tag = match self {
            TrustedRelayerEvent::RelayerApplyEvent { account_id, stake, activate_at } => {
                members.push(("account_id", account_id.clone()));
                members.push(("stake", decimal(*stake)));
                members.push(("activate_at", decimal(*activate_at as u128)));
                "RelayerApplyEvent"
            },
            TrustedRelayerEvent::RelayerResignEvent { account_id, stake } => {
                members.push(("account_id", account_id.clone()));
                members.push(("stake", decimal(*stake)));
                "RelayerResignEvent"
            },
            TrustedRelayerEvent::RelayerRejectEvent { account_id, stake } => {
                members.push(("account_id", account_id.clone()));
                members.push(("stake", decimal(*stake)));
                "RelayerRejectEvent"
            },
        };
        assert(members_of(members@) =~= self@.members());
        proof {
            reveal_strlit("account_id");
            reveal_strlit("stake");
            reveal_strlit("activate_at");
            let names = members_of(members@).map_values(|m: (Seq<char>, Seq<char>)| m.0);
            assert forall|i: int, j: int|
                0 <= i < names.len() && 0 <= j < names.len() && i != j implies names[i]
                != names[j] by {
                assert("account_id"@.len() == 10 && "stake"@.len() == 5 && "activate_at"@.len()
                    == 11);
            }
            reveal_strlit("RelayerApplyEvent");
            reveal_strlit("RelayerResignEvent");
            reveal_strlit("RelayerRejectEvent");
            match self@ {
                EventView::Apply { stake, activate_at, .. } => {
                    law_numeral(stake as nat);
                    law_numeral(activate_at as nat);
                },
                EventView::Resign { stake, .. } => law_numeral(stake as nat),
                EventView::Reject { stake, .. } => law_numeral(stake as nat),
            }
        }
        tagged_object(tag, members)
    }
}

} // verus!
