//! The server's registry of players.

use vstd::prelude::*;

use crate::clock::{now_utc, read_from_clock};
use crate::search::{first, first_position, first_position_is, first_position_is_first};
use crate::text::{decimal, decimal_text, headed, same_ignoring_case, texts};
use crate::wallet::{WalletAddress, WalletAddressView};

verus! {

/// A player in the registry.
#[derive(Debug)]
pub struct RegisteredUser {
    pub address: String,
    /// The public key as hex text.
    pub public_key: String,
    /// The index of the address in the player's wallet.
    pub address_index: Option<u32>,
    /// When the player was registered last, in seconds since the Unix epoch.
    pub registered_at_utc: u64,
}

/// What a [`RegisteredUser`] holds.
pub struct RegisteredUserView {
    pub address: Seq<char>,
    pub public_key: Seq<char>,
    pub address_index: Option<u32>,
    pub registered_at_utc: u64,
}

impl View for RegisteredUser {
    type V = RegisteredUserView;

    open spec fn view(&self) -> RegisteredUserView {
        RegisteredUserView {
            address: self.address@,
            public_key: self.public_key@,
            address_index: self.address_index,
            registered_at_utc: self.registered_at_utc,
        }
    }
}

impl Clone for RegisteredUser {
    fn clone(&self) -> (copy: Self)
        ensures
            copy == *self,
    {
        RegisteredUser {
            address: self.address.clone(),
            public_key: self.public_key.clone(),
            address_index: self.address_index,
            registered_at_utc: self.registered_at_utc,
        }
    }
}

/// The players of a registry by what they hold.
pub open spec fn users(registry: Seq<RegisteredUser>) -> Seq<RegisteredUserView> {
    registry.map_values(|u: RegisteredUser| u@)
}

/// Has an address, whatever its case.
pub open spec fn has_address(address: Seq<char>) -> spec_fn(RegisteredUserView) -> bool {
    |u: RegisteredUserView| same_ignoring_case(u.address, address)
}

/// Has a public key, whatever the case of its hex text.
pub open spec fn has_public_key(public_key: Seq<char>) -> spec_fn(RegisteredUserView) -> bool {
    |u: RegisteredUserView| same_ignoring_case(u.public_key, public_key)
}

/// A registry after an address was registered at a time: the first player with that address gets
/// the public key, the index and the time; where there is none, a new player comes last.
pub open spec fn registered(
    registry: Seq<RegisteredUserView>,
    selected: WalletAddressView,
    now: u64,
) -> Seq<RegisteredUserView> {
    let k = first_position(registry, has_address(selected.address));
    let address = if k < registry.len() {
        registry[k].address
    } else {
        selected.address
    };
    let user = RegisteredUserView {
        address,
        public_key: selected.public_key_hex,
        address_index: Some(selected.index),
        registered_at_utc: now,
    };
    if k < registry.len() {
        registry.update(k, user)
    } else {
        registry.push(user)
    }
}

/// Registers an address at a time.
pub fn record_registration(
    registry: &mut Vec<RegisteredUser>,
    selected: &WalletAddress,
    now: u64,
)
    ensures
        users(final(registry)@) == registered(users(old(registry)@), selected@, now),
{
    let mut k: usize = 0;
    while k < registry.len()
        && !registry[k].address.as_str().eq_ignore_ascii_case(selected.address.as_str())
        invariant
            registry@ == old(registry)@,
            k <= registry@.len(),
            forall|j: int|
                0 <= j < k ==> !has_address(selected@.address)(#[trigger] users(registry@)[j]),
        decreases registry@.len() - k,
    {
        k = k + 1;
    }
    proof {
        first_position_is(users(registry@), has_address(selected@.address), k as int);
    }
    let found: bool = k < registry.len();
    let address: String = if found {
        registry[k].address.clone()
    } else {
        selected.address.clone()
    };
    let user = RegisteredUser {
        address,
        public_key: selected.public_key_hex.clone(),
        address_index: Some(selected.index),
        registered_at_utc: now,
    };
    if found {
        registry[k] = user;
    } else {
        registry.push(user);
    }
    assert(users(registry@) =~= registered(users(old(registry)@), selected@, now));
}

/// Registers an address at the time of the system clock, which cannot be said.
pub fn register(registry: &mut Vec<RegisteredUser>, selected: &WalletAddress)
    ensures
        exists|now: u64|
            read_from_clock(now) && users(final(registry)@) == #[trigger] registered(
                users(old(registry)@),
                selected@,
                now,
            ),
{
    let now: u64 = now_utc();
    record_registration(registry, selected, now);
}

/// The first player with a public key, by position; the number of players, where there is none.
pub fn find_user(registry: &Vec<RegisteredUser>, public_key_hex: &str) -> (k: usize)
    ensures
        k == first_position(users(registry@), has_public_key(public_key_hex@)),
        k <= registry@.len(),
        k < registry@.len() ==> same_ignoring_case(registry@[k as int].public_key@, public_key_hex@),
        forall|j: int|
            0 <= j < k ==> !same_ignoring_case(
                (#[trigger] registry@[j]).public_key@,
                public_key_hex@,
            ),
{
    let mut k: usize = 0;
    while k < registry.len()
        && !registry[k].public_key.as_str().eq_ignore_ascii_case(public_key_hex)
        invariant
            k <= registry@.len(),
            forall|j: int|
                0 <= j < k ==> !has_public_key(public_key_hex@)(#[trigger] users(registry@)[j]),
        decreases registry@.len() - k,
    {
        k = k + 1;
    }
    proof {
        first_position_is(users(registry@), has_public_key(public_key_hex@), k as int);
        assert forall|j: int| 0 <= j < k implies !same_ignoring_case(
            (#[trigger] registry@[j]).public_key@,
            public_key_hex@,
        ) by {
            assert(!has_public_key(public_key_hex@)(users(registry@)[j]));
        }
    }
    k
}

/// What a registration is reported as.
pub open spec fn registration_report(selected: WalletAddressView) -> Seq<Seq<char>> {
    seq![
        "registered user."@,
        "Address index: "@ + decimal(selected.index as nat),
        "Address: "@ + selected.address,
        "Public key: "@ + selected.public_key_hex,
    ]
}

/// The lines that report a registration.
pub fn registration_lines(selected: &WalletAddress) -> (lines: Vec<String>)
    ensures
        texts(lines@) == registration_report(selected@),
{
    let lines: Vec<String> = vec![
        "registered user.".to_owned(),
        headed("Address index: ", decimal_text(selected.index).as_str()),
        headed("Address: ", selected.address.as_str()),
        headed("Public key: ", selected.public_key_hex.as_str()),
    ];
    assert(texts(lines@) =~= registration_report(selected@));
    lines
}

/// No two players of a registry share an address, whatever its case.
pub open spec fn addresses_distinct(registry: Seq<RegisteredUserView>) -> bool {
    forall|i: int, j: int|
        0 <= i < j < registry.len() ==> !same_ignoring_case(
            (#[trigger] registry[i]).address,
            (#[trigger] registry[j]).address,
        )
}

/// Registering keeps the addresses of a registry distinct.
pub proof fn registering_keeps_addresses_distinct(
    registry: Seq<RegisteredUserView>,
    selected: WalletAddressView,
    now: u64,
)
    requires
        addresses_distinct(registry),
    ensures
        addresses_distinct(registered(registry, selected, now)),
{
    let meets = has_address(selected.address);
    first_position_is_first(registry, meets);
    let after = registered(registry, selected, now);
    let k = first_position(registry, meets);
    assert forall|i: int, j: int| 0 <= i < j < after.len() implies !same_ignoring_case(
        (#[trigger] after[i]).address,
        (#[trigger] after[j]).address,
    ) by {
        if j < registry.len() {
            assert(after[i].address == registry[i].address);
            assert(after[j].address == registry[j].address);
        } else {
            assert(after[i] == registry[i]);
            assert(!meets(registry[i]));
        }
    }
}

/// Registering touches one player: the one with the address, who then has the public key and the
/// index of the wallet; the others stay as they are, where they are, and at most one is added.
pub proof fn registering_touches_one_player(
    registry: Seq<RegisteredUserView>,
    selected: WalletAddressView,
    now: u64,
)
    ensures
        ({
            let after = registered(registry, selected, now);
            let k = first_position(registry, has_address(selected.address));
            &&& registry.len() <= after.len() <= registry.len() + 1
            &&& 0 <= k < after.len()
            &&& first(after, has_address(selected.address)) == Some(after[k])
            &&& after[k].public_key == selected.public_key_hex
            &&& after[k].address_index == Some(selected.index)
            &&& after[k].registered_at_utc == now
            &&& forall|j: int|
                0 <= j < registry.len() && j != k ==> (#[trigger] after[j]) == registry[j]
        }),
{
    let meets = has_address(selected.address);
    first_position_is_first(registry, meets);
    let after = registered(registry, selected, now);
    let k = first_position(registry, meets);
    assert forall|j: int| 0 <= j < k implies !meets(#[trigger] after[j]) by {
        assert(after[j] == registry[j]);
    }
    first_position_is(after, meets, k);
}

/// Registering an address once more adds nothing: it is as if only the last time had been.
pub proof fn registering_again_replaces(
    registry: Seq<RegisteredUserView>,
    selected: WalletAddressView,
    before: u64,
    now: u64,
)
    ensures
        registered(registered(registry, selected, before), selected, now) == registered(
            registry,
            selected,
            now,
        ),
{
    let meets = has_address(selected.address);
    first_position_is_first(registry, meets);
    let after = registered(registry, selected, before);
    let k = first_position(registry, meets);
    assert forall|j: int| 0 <= j < k implies !meets(#[trigger] after[j]) by {
        assert(after[j] == registry[j]);
    }
    first_position_is(after, meets, k);
    assert(registered(after, selected, now) =~= registered(registry, selected, now));
}

/// A player who registers is found by the public key, unless another player has it too.
pub proof fn registered_player_is_found_by_key(
    registry: Seq<RegisteredUserView>,
    selected: WalletAddressView,
    now: u64,
)
    requires
        forall|j: int|
            0 <= j < registry.len() && !same_ignoring_case(
                registry[j].address,
                selected.address,
            ) ==> !same_ignoring_case(
                (#[trigger] registry[j]).public_key,
                selected.public_key_hex,
            ),
    ensures
        first(registered(registry, selected, now), has_public_key(selected.public_key_hex))
            matches Some(user) && same_ignoring_case(user.address, selected.address)
            && user.public_key == selected.public_key_hex,
{
    let meets = has_address(selected.address);
    first_position_is_first(registry, meets);
    let after = registered(registry, selected, now);
    let k = first_position(registry, meets);
    assert forall|j: int| 0 <= j < k implies !has_public_key(selected.public_key_hex)(
        #[trigger] after[j],
    ) by {
        assert(after[j] == registry[j]);
        assert(!meets(registry[j]));
    }
    first_position_is(after, has_public_key(selected.public_key_hex), k);
}

/// Registering an address that a player of the registry has, whatever its case, gives the first such
/// player the public key, the index and the time, and changes nothing else.
pub proof fn registering_a_known_address_updates_it(
    registry: Seq<RegisteredUserView>,
    selected: WalletAddressView,
    now: u64,
    k: int,
)
    requires
        0 <= k < registry.len(),
        same_ignoring_case(registry[k].address, selected.address),
        forall|j: int|
            0 <= j < k ==> !same_ignoring_case((#[trigger] registry[j]).address, selected.address),
    ensures
        ({
            let after = registered(registry, selected, now);
            &&& after.len() == registry.len()
            &&& after[k].address == registry[k].address
            &&& after[k].public_key == selected.public_key_hex
            &&& after[k].address_index == Some(selected.index)
            &&& after[k].registered_at_utc == now
            &&& forall|j: int|
                0 <= j < registry.len() && j != k ==> (#[trigger] after[j]) == registry[j]
        }),
{
    first_position_is(registry, has_address(selected.address), k);
}

/// Registering an address that no player of the registry has adds a player at the end, with the
/// address, the public key, the index and the time, and changes nothing else.
pub proof fn registering_a_new_address_adds_it(
    registry: Seq<RegisteredUserView>,
    selected: WalletAddressView,
    now: u64,
)
    requires
        forall|j: int|
            0 <= j < registry.len() ==> !same_ignoring_case(
                (#[trigger] registry[j]).address,
                selected.address,
            ),
    ensures
        ({
            let after = registered(registry, selected, now);
            let last = registry.len() as int;
            &&& after.len() == registry.len() + 1
            &&& after[last].address == selected.address
            &&& after[last].public_key == selected.public_key_hex
            &&& after[last].address_index == Some(selected.index)
            &&& after[last].registered_at_utc == now
            &&& forall|j: int| 0 <= j < registry.len() ==> (#[trigger] after[j]) == registry[j]
        }),
{
    first_position_is(registry, has_address(selected.address), registry.len() as int);
}

/// The first player with a public key, whatever its case, is the one found by it, wherever the
/// player stands.
pub proof fn first_player_of_a_key_is_found(
    registry: Seq<RegisteredUserView>,
    public_key: Seq<char>,
    k: int,
)
    requires
        0 <= k <= registry.len(),
        k < registry.len() ==> same_ignoring_case(registry[k].public_key, public_key),
        forall|j: int|
            0 <= j < k ==> !same_ignoring_case((#[trigger] registry[j]).public_key, public_key),
    ensures
        first(registry, has_public_key(public_key)) == if k < registry.len() {
            Some(registry[k])
        } else {
            None
        },
{
    first_position_is(registry, has_public_key(public_key), k);
}

/// A registration is reported in four lines: that it was made, the index, the address and the public
/// key, each whole.
pub proof fn registration_report_says_what_was_registered(selected: WalletAddressView)
    ensures
        registration_report(selected).len() == 4,
        registration_report(selected)[0] == "registered user."@,
        registration_report(selected)[1] == "Address index: "@ + decimal(selected.index as nat),
        registration_report(selected)[2] == "Address: "@ + selected.address,
        registration_report(selected)[3] == "Public key: "@ + selected.public_key_hex,
{
}

/// A registry is seen by all its players as they are.
pub proof fn registry_is_seen_as_it_is(registry: Seq<RegisteredUser>)
    ensures
        users(registry).len() == registry.len(),
        forall|i: int|
            0 <= i < registry.len() ==> {
                &&& (#[trigger] users(registry)[i]).address == registry[i].address@
                &&& users(registry)[i].public_key == registry[i].public_key@
                &&& users(registry)[i].address_index == registry[i].address_index
                &&& users(registry)[i].registered_at_utc == registry[i].registered_at_utc
            },
{
}

} // verus!
