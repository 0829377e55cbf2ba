//! Game accounts.

use vstd::prelude::*;

use crate::companion::CompanionId;
use crate::text::{decimal, lemma_decimal_injective, owned, push_decimal};

verus! {

/// Stable identifier of an account. Also used to name its profile directory.
#[derive(Debug, Clone, Copy, PartialEq, Eq, Structural, Hash, PartialOrd, Ord)]
pub struct AccountId(pub u32);

/// How the account authenticates.
#[derive(Debug, Clone, Copy, PartialEq, Eq, Structural, Hash)]
pub enum Provider {
    /// Regular `ArenaNet` account, logged in via its own `Local.dat`.
    ArenaNet,
    /// Steam-linked account, authenticated by the running Steam client.
    Steam,
}

impl Default for Provider {
    fn default() -> (r: Self)
        ensures
            r == Provider::ArenaNet,
    {
        Provider::ArenaNet
    }
}

impl Provider {
    /// The name shown for the provider.
    pub fn display_name(self) -> (r: &'static str)
        ensures
            r@ == (match self {
                Provider::ArenaNet => "ArenaNet"@,
                Provider::Steam => "Steam"@,
            }),
    {
        match self {
            Provider::ArenaNet => "ArenaNet",
            Provider::Steam => "Steam",
        }
    }
}

/// The `MumbleLink` shared memory name of the account with id `id`.
pub open spec fn mumble_name(id: u32) -> Seq<char> {
    "Breakbar_"@ + decimal(id as nat)
}

/// A Guild Wars 2 account managed by Breakbar.
///
/// Credentials are never stored here: the login lives exclusively in the account's `Local.dat`.
#[derive(Debug, Clone, PartialEq, Eq)]
pub struct Account {
    pub id: AccountId,
    pub name: String,
    pub provider: Provider,
    /// Additional command line arguments, appended verbatim.
    pub extra_args: String,
    /// Companion apps started together with this account.
    pub companions: Vec<CompanionId>,
}

impl Account {
    /// A new `ArenaNet` account without extra arguments or companions.
    pub fn new(id: AccountId, name: &str) -> (r: Self)
        ensures
            r.id == id,
            r.name@ == name@,
            r.provider == Provider::ArenaNet,
            r.extra_args@ == Seq::<char>::empty(),
            r.companions@ == Seq::<CompanionId>::empty(),
    {
        Self {
            id,
            name: owned(name),
            provider: Provider::ArenaNet,
            extra_args: String::new(),
            companions: Vec::new(),
        }
    }

    /// Unique `MumbleLink` shared memory name, so overlays never read another client's data.
    pub fn mumble_link_name(&self) -> (r: String)
        ensures
            r@ == mumble_name(self.id.0),
    {
        let mut name = owned("Breakbar_");
        push_decimal(&mut name, self.id.0 as u64);
        name
    }
}

/// Two accounts with different ids never share a `MumbleLink` name, so an overlay attached to
/// one client never reads another client's data.
pub proof fn lemma_mumble_names_unique(a: u32, b: u32)
    requires
        a != b,
    ensures
        mumble_name(a) != mumble_name(b),
{
    let p = "Breakbar_"@;
    if mumble_name(a) == mumble_name(b) {
        assert(mumble_name(a).subrange(p.len() as int, mumble_name(a).len() as int) =~= decimal(
            a as nat,
        ));
        assert(mumble_name(b).subrange(p.len() as int, mumble_name(b).len() as int) =~= decimal(
            b as nat,
        ));
        lemma_decimal_injective(a as nat, b as nat);
    }
}

} // verus!
