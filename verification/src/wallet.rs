//! The player's wallet file, and the choice of an address in it.

use vstd::prelude::*;

use crate::error::{outcome, AuthError, ErrorKind};
use crate::search::{first, first_position, first_position_is, first_position_is_first};
use crate::text::same_ignoring_case;

verus! {

/// A wallet file.
#[derive(Debug)]
pub struct WalletFile {
    pub network: String,
    pub seed_phrase: String,
    pub bip39_passphrase: String,
    pub addresses: Vec<WalletAddress>,
}

/// An address of a wallet.
#[derive(Debug)]
pub struct WalletAddress {
    /// The index that the address was derived at.
    pub index: u32,
    pub address: String,
    pub public_key_hex: String,
}

/// What a [`WalletAddress`] holds.
pub struct WalletAddressView {
    pub index: u32,
    pub address: Seq<char>,
    pub public_key_hex: Seq<char>,
}

impl View for WalletAddress {
    type V = WalletAddressView;

    open spec fn view(&self) -> WalletAddressView {
        WalletAddressView {
            index: self.index,
            address: self.address@,
            public_key_hex: self.public_key_hex@,
        }
    }
}

impl Clone for WalletAddress {
    fn clone(&self) -> (copy: Self)
        ensures
            copy == *self,
    {
        WalletAddress {
            index: self.index,
            address: self.address.clone(),
            public_key_hex: self.public_key_hex.clone(),
        }
    }
}

/// What a [`WalletFile`] holds, as far as anything depends on it.
pub struct WalletView {
    pub seed_phrase: Seq<char>,
    pub bip39_passphrase: Seq<char>,
    pub addresses: Seq<WalletAddressView>,
}

impl View for WalletFile {
    type V = WalletView;

    open spec fn view(&self) -> WalletView {
        WalletView {
            seed_phrase: self.seed_phrase@,
            bip39_passphrase: self.bip39_passphrase@,
            addresses: self.addresses@.map_values(|a: WalletAddress| a@),
        }
    }
}

/// Has an index.
pub open spec fn has_index(index: u32) -> spec_fn(WalletAddressView) -> bool {
    |a: WalletAddressView| a.index == index
}

/// Has a public key, whatever the case of its hex text.
pub open spec fn has_key(public_key_hex: Seq<char>) -> spec_fn(WalletAddressView) -> bool {
    |a: WalletAddressView| same_ignoring_case(a.public_key_hex, public_key_hex)
}

/// The address of the highest index; the last one, where several share it.
pub open spec fn newest_address(addresses: Seq<WalletAddressView>) -> WalletAddressView
    decreases addresses.len(),
{
    if addresses.len() <= 1 {
        addresses.last()
    } else {
        let before = newest_address(addresses.drop_last());
        if addresses.last().index >= before.index {
            addresses.last()
        } else {
            before
        }
    }
}

/// The address to register: the one asked for, else the newest.
pub open spec fn address_to_register(
    addresses: Seq<WalletAddressView>,
    requested_index: Option<u32>,
) -> Result<WalletAddressView, ErrorKind> {
    if addresses.len() == 0 {
        Err(ErrorKind::NoAddresses)
    } else {
        match requested_index {
            Some(index) => match first(addresses, has_index(index)) {
                Some(address) => Ok(address),
                None => Err(ErrorKind::UnknownIndex(index)),
            },
            None => Ok(newest_address(addresses)),
        }
    }
}

/// The address to sign with: the one asked for, if the public key is its own, else the one that
/// has the public key.
pub open spec fn address_to_sign_with(
    addresses: Seq<WalletAddressView>,
    public_key_hex: Seq<char>,
    requested_index: Option<u32>,
) -> Result<WalletAddressView, ErrorKind> {
    match requested_index {
        Some(index) => match first(addresses, has_index(index)) {
            None => Err(ErrorKind::UnregisteredIndex(index)),
            Some(address) => if same_ignoring_case(address.public_key_hex, public_key_hex) {
                Ok(address)
            } else {
                Err(ErrorKind::KeyNotAtIndex(index))
            },
        },
        None => match first(addresses, has_key(public_key_hex)) {
            Some(address) => Ok(address),
            None => Err(ErrorKind::KeyNotInWallet),
        },
    }
}

/// The newest address is one of the wallet, no address has a higher index, and none that comes
/// after it has the same.
pub proof fn newest_address_has_highest_index(addresses: Seq<WalletAddressView>)
    requires
        addresses.len() > 0,
    ensures
        exists|k: int|
            {
                &&& 0 <= k < addresses.len()
                &&& #[trigger] addresses[k] == newest_address(addresses)
                &&& forall|j: int|
                    k < j < addresses.len() ==> (#[trigger] addresses[j]).index
                        < addresses[k].index
            },
        forall|j: int|
            0 <= j < addresses.len() ==> (#[trigger] addresses[j]).index <= newest_address(
                addresses,
            ).index,
    decreases addresses.len(),
{
    let last = addresses.len() - 1;
    if last == 0 {
        assert(addresses[0] == newest_address(addresses));
    } else {
        let before = addresses.drop_last();
        newest_address_has_highest_index(before);
        assert forall|j: int| 0 <= j < addresses.len() implies (#[trigger] addresses[j]).index
            <= newest_address(addresses).index by {
            if j < last {
                assert(before[j] == addresses[j]);
            }
        }
        if addresses[last].index >= newest_address(before).index {
            assert(addresses[last] == newest_address(addresses));
        } else {
            let k = choose|k: int|
                {
                    &&& 0 <= k < before.len()
                    &&& #[trigger] before[k] == newest_address(before)
                    &&& forall|j: int|
                        k < j < before.len() ==> (#[trigger] before[j]).index < before[k].index
                };
            assert(addresses[k] == newest_address(addresses));
            assert forall|j: int| k < j < addresses.len() implies (#[trigger] addresses[j]).index
                < addresses[k].index by {
                if j < last {
                    assert(before[j] == addresses[j]);
                }
            }
        }
    }
}

/// The address chosen to sign with is one of the wallet, has the public key that was asked for,
/// and the index that was asked for, where one was.
pub proof fn chosen_address_is_of_the_wallet(
    addresses: Seq<WalletAddressView>,
    public_key_hex: Seq<char>,
    requested_index: Option<u32>,
)
    requires
        address_to_sign_with(addresses, public_key_hex, requested_index) is Ok,
    ensures
        ({
            let chosen = address_to_sign_with(
                addresses,
                public_key_hex,
                requested_index,
            )->Ok_0;
            &&& same_ignoring_case(chosen.public_key_hex, public_key_hex)
            &&& requested_index is Some ==> requested_index == Some(chosen.index)
            &&& exists|k: int| 0 <= k < addresses.len() && #[trigger] addresses[k] == chosen
        }),
{
    match requested_index {
        Some(index) => {
            first_position_is_first(addresses, has_index(index));
            assert(addresses[first_position(addresses, has_index(index))].index == index);
        },
        None => {
            first_position_is_first(addresses, has_key(public_key_hex));
            assert(same_ignoring_case(
                addresses[first_position(addresses, has_key(public_key_hex))].public_key_hex,
                public_key_hex,
            ));
        },
    }
}

/// Accepts a wallet that was read from a file, unless it lists no addresses.
pub fn check_wallet(wallet: WalletFile) -> (result: Result<WalletFile, AuthError>)
    ensures
        match result {
            Ok(accepted) => accepted == wallet && wallet.addresses@.len() > 0,
            Err(error) => error@ == ErrorKind::OldWalletFormat && wallet.addresses@.len() == 0,
        },
{
    if wallet.addresses.is_empty() {
        Err(AuthError::OldWalletFormat)
    } else {
        Ok(wallet)
    }
}

/// The position of the first address of an index.
fn find_index(wallet: &WalletFile, index: u32) -> (k: usize)
    ensures
        k == first_position(wallet@.addresses, has_index(index)),
        k <= wallet.addresses@.len(),
{
    let mut k: usize = 0;
    while k < wallet.addresses.len() && wallet.addresses[k].index != index
        invariant
            k <= wallet.addresses@.len(),
            forall|j: int| 0 <= j < k ==> !has_index(index)(#[trigger] wallet@.addresses[j]),
        decreases wallet.addresses@.len() - k,
    {
        k = k + 1;
    }
    proof {
        first_position_is(wallet@.addresses, has_index(index), k as int);
    }
    k
}

/// The position of the first address of a public key.
fn find_key(wallet: &WalletFile, key: &str) -> (k: usize)
    ensures
        k == first_position(wallet@.addresses, has_key(key@)),
        k <= wallet.addresses@.len(),
{
    let mut k: usize = 0;
    while k < wallet.addresses.len()
        && !wallet.addresses[k].public_key_hex.as_str().eq_ignore_ascii_case(key)
        invariant
            k <= wallet.addresses@.len(),
            forall|j: int| 0 <= j < k ==> !has_key(key@)(#[trigger] wallet@.addresses[j]),
        decreases wallet.addresses@.len() - k,
    {
        k = k + 1;
    }
    proof {
        first_position_is(wallet@.addresses, has_key(key@), k as int);
    }
    k
}

/// Chooses the address to register: the one asked for, else the newest, which is the one of the
/// highest index.
pub fn select_wallet_address(wallet: &WalletFile, requested_index: Option<u32>) -> (result: Result<
    WalletAddress,
    AuthError,
>)
    ensures
        outcome(result) == address_to_register(wallet@.addresses, requested_index),
{
    if wallet.addresses.is_empty() {
        return Err(AuthError::NoAddresses);
    }
    if let Some(index) = requested_index {
        let k: usize = find_index(wallet, index);
        if k == wallet.addresses.len() {
            return Err(AuthError::UnknownIndex(index));
        }
        return Ok(wallet.addresses[k].clone());
    }
    let mut newest: usize = 0;
    let mut k: usize = 1;
    while k < wallet.addresses.len()
        invariant
            newest < k <= wallet.addresses@.len(),
            wallet@.addresses[newest as int] == newest_address(wallet@.addresses.take(k as int)),
        decreases wallet.addresses@.len() - k,
    {
        let ghost seen = wallet@.addresses.take(k + 1);
        assert(seen.drop_last() == wallet@.addresses.take(k as int));
        assert(seen.last() == wallet.addresses@[k as int]@);
        if wallet.addresses[k].index >= wallet.addresses[newest].index {
            newest = k;
        }
        k = k + 1;
    }
    assert(wallet@.addresses.take(k as int) == wallet@.addresses);
    Ok(wallet.addresses[newest].clone())
}

/// Chooses the address to sign with: the one asked for, if the public key is its own, else the
/// one that has the public key.
pub fn select_signing_address(
    wallet: &WalletFile,
    public_key_hex: &str,
    requested_index: Option<u32>,
) -> (result: Result<WalletAddress, AuthError>)
    ensures
        outcome(result) == address_to_sign_with(
            wallet@.addresses,
            public_key_hex@,
            requested_index,
        ),
{
    match requested_index {
        Some(index) => {
            let k: usize = find_index(wallet, index);
            if k == wallet.addresses.len() {
                return Err(AuthError::UnregisteredIndex(index));
            }
            if !wallet.addresses[k].public_key_hex.as_str().eq_ignore_ascii_case(public_key_hex) {
                return Err(AuthError::KeyNotAtIndex(index));
            }
            Ok(wallet.addresses[k].clone())
        },
        None => {
            let k: usize = find_key(wallet, public_key_hex);
            if k == wallet.addresses.len() {
                return Err(AuthError::KeyNotInWallet);
            }
            Ok(wallet.addresses[k].clone())
        },
    }
}

/// Where an index is asked for at registration, the first address of the wallet that has it is
/// chosen.
pub proof fn requested_index_is_registered(
    addresses: Seq<WalletAddressView>,
    index: u32,
    k: int,
)
    requires
        0 <= k < addresses.len(),
        addresses[k].index == index,
        forall|j: int| 0 <= j < k ==> (#[trigger] addresses[j]).index != index,
    ensures
        address_to_register(addresses, Some(index)) == Ok::<WalletAddressView, ErrorKind>(
            addresses[k],
        ),
{
    first_position_is(addresses, has_index(index), k);
}

/// Where the choice at registration succeeds, the chosen address is one of the wallet. It has
/// exactly the index asked for, where one was, and is the first that has it; where none was, no
/// address has a higher index, and none that comes after it has the same.
pub proof fn registered_address_is_the_one_meant(
    addresses: Seq<WalletAddressView>,
    requested_index: Option<u32>,
)
    requires
        address_to_register(addresses, requested_index) is Ok,
    ensures
        exists|k: int|
            {
                let chosen = address_to_register(addresses, requested_index)->Ok_0;
                &&& 0 <= k < addresses.len()
                &&& #[trigger] addresses[k] == chosen
                &&& match requested_index {
                    Some(index) => chosen.index == index && forall|j: int|
                        0 <= j < k ==> (#[trigger] addresses[j]).index != index,
                    None => (forall|j: int|
                        0 <= j < addresses.len() ==> (#[trigger] addresses[j]).index
                            <= chosen.index) && (forall|j: int|
                        k < j < addresses.len() ==> (#[trigger] addresses[j]).index
                            < chosen.index),
                }
            },
{
    match requested_index {
        Some(index) => {
            first_position_is_first(addresses, has_index(index));
            let k = first_position(addresses, has_index(index));
            assert(addresses[k].index == index);
            assert forall|j: int| 0 <= j < k implies (#[trigger] addresses[j]).index != index by {
                assert(!has_index(index)(addresses[j]));
            }
        },
        None => {
            newest_address_has_highest_index(addresses);
        },
    }
}

/// Where no index is asked for at registration, an address that none exceeds in its index, and no
/// later one equals, is chosen.
pub proof fn highest_index_is_registered(addresses: Seq<WalletAddressView>, k: int)
    requires
        0 <= k < addresses.len(),
        forall|j: int| 0 <= j < k ==> (#[trigger] addresses[j]).index <= addresses[k].index,
        forall|j: int| k < j < addresses.len() ==> (#[trigger] addresses[j]).index
            < addresses[k].index,
    ensures
        address_to_register(addresses, None) == Ok::<WalletAddressView, ErrorKind>(addresses[k]),
{
    newest_address_has_highest_index(addresses);
    let newest = newest_address(addresses);
    let p = choose|p: int|
        {
            &&& 0 <= p < addresses.len()
            &&& #[trigger] addresses[p] == newest
            &&& forall|j: int|
                p < j < addresses.len() ==> (#[trigger] addresses[j]).index < addresses[p].index
        };
    assert(addresses[k].index <= newest.index);
    assert(p == k);
}

/// The choice at registration fails where the wallet is empty, and where no address has the index
/// asked for; nowhere else.
pub proof fn registration_fails_for_its_reason(
    addresses: Seq<WalletAddressView>,
    requested_index: Option<u32>,
)
    ensures
        addresses.len() == 0 ==> address_to_register(addresses, requested_index) == Err::<
            WalletAddressView,
            ErrorKind,
        >(ErrorKind::NoAddresses),
        addresses.len() > 0 ==> (address_to_register(addresses, requested_index) matches Err(kind)
            ==> (requested_index matches Some(index) && kind == ErrorKind::UnknownIndex(index)
            && forall|j: int| 0 <= j < addresses.len() ==> (#[trigger] addresses[j]).index
            != index)),
{
    if let Some(index) = requested_index {
        first_position_is_first(addresses, has_index(index));
        if first_position(addresses, has_index(index)) == addresses.len() {
            assert forall|j: int| 0 <= j < addresses.len() implies (#[trigger] addresses[j]).index
                != index by {
                assert(!has_index(index)(addresses[j]));
            }
        }
    }
}

/// Where no index is asked for, the first address of the wallet that has the public key signs,
/// wherever it stands.
pub proof fn key_anywhere_in_the_wallet_signs(
    addresses: Seq<WalletAddressView>,
    public_key_hex: Seq<char>,
    k: int,
)
    requires
        0 <= k < addresses.len(),
        same_ignoring_case(addresses[k].public_key_hex, public_key_hex),
        forall|j: int|
            0 <= j < k ==> !same_ignoring_case(
                (#[trigger] addresses[j]).public_key_hex,
                public_key_hex,
            ),
    ensures
        address_to_sign_with(addresses, public_key_hex, None) == Ok::<
            WalletAddressView,
            ErrorKind,
        >(addresses[k]),
{
    first_position_is(addresses, has_key(public_key_hex), k);
}

/// Where an index is asked for, the first address that has it signs if the public key is its own.
pub proof fn requested_index_signs_with_its_own_key(
    addresses: Seq<WalletAddressView>,
    public_key_hex: Seq<char>,
    index: u32,
    k: int,
)
    requires
        0 <= k < addresses.len(),
        addresses[k].index == index,
        forall|j: int| 0 <= j < k ==> (#[trigger] addresses[j]).index != index,
    ensures
        address_to_sign_with(addresses, public_key_hex, Some(index)) == if same_ignoring_case(
            addresses[k].public_key_hex,
            public_key_hex,
        ) {
            Ok::<WalletAddressView, ErrorKind>(addresses[k])
        } else {
            Err(ErrorKind::KeyNotAtIndex(index))
        },
{
    first_position_is(addresses, has_index(index), k);
}

/// The choice at signing fails only where no address has what was asked for: without an index, if no
/// address has the public key; with one, if no address has the index, or the first that has it has
/// another public key.
pub proof fn signing_choice_fails_for_its_reason(
    addresses: Seq<WalletAddressView>,
    public_key_hex: Seq<char>,
    requested_index: Option<u32>,
)
    requires
        address_to_sign_with(addresses, public_key_hex, requested_index) is Err,
    ensures
        ({
            let kind = address_to_sign_with(
                addresses,
                public_key_hex,
                requested_index,
            )->Err_0;
            match requested_index {
                None => kind == ErrorKind::KeyNotInWallet && forall|j: int|
                    0 <= j < addresses.len() ==> !same_ignoring_case(
                        (#[trigger] addresses[j]).public_key_hex,
                        public_key_hex,
                    ),
                Some(index) => {
                    ||| kind == ErrorKind::UnregisteredIndex(index) && forall|j: int|
                        0 <= j < addresses.len() ==> (#[trigger] addresses[j]).index != index
                    ||| kind == ErrorKind::KeyNotAtIndex(index) && exists|k: int|
                        {
                            &&& 0 <= k < addresses.len()
                            &&& (#[trigger] addresses[k]).index == index
                            &&& !same_ignoring_case(addresses[k].public_key_hex, public_key_hex)
                        }
                },
            }
        }),
{
    match requested_index {
        None => {
            first_position_is_first(addresses, has_key(public_key_hex));
            assert forall|j: int| 0 <= j < addresses.len() implies !same_ignoring_case(
                (#[trigger] addresses[j]).public_key_hex,
                public_key_hex,
            ) by {
                assert(!has_key(public_key_hex)(addresses[j]));
            }
        },
        Some(index) => {
            first_position_is_first(addresses, has_index(index));
            let k = first_position(addresses, has_index(index));
            if k == addresses.len() {
                assert forall|j: int| 0 <= j < addresses.len() implies (
                #[trigger] addresses[j]).index != index by {
                    assert(!has_index(index)(addresses[j]));
                }
            } else {
                assert(addresses[k].index == index);
            }
        },
    }
}

/// A wallet is seen by its phrase, its passphrase and all its addresses as they are.
pub proof fn wallet_is_seen_as_it_is(wallet: WalletFile)
    ensures
        wallet@.seed_phrase == wallet.seed_phrase@,
        wallet@.bip39_passphrase == wallet.bip39_passphrase@,
        wallet@.addresses.len() == wallet.addresses@.len(),
        forall|i: int|
            0 <= i < wallet.addresses@.len() ==> {
                &&& (#[trigger] wallet@.addresses[i]).index == wallet.addresses@[i].index
                &&& wallet@.addresses[i].address == wallet.addresses@[i].address@
                &&& wallet@.addresses[i].public_key_hex == wallet.addresses@[i].public_key_hex@
            },
{
}

} // verus!
