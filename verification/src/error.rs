//! What can go wrong, and the words in which it is reported.

use vstd::prelude::*;

use crate::text::{decimal, decimal_text};

verus! {

/// The error of `bip39`, carried for its report.
#[verifier::external_type_specification]
#[verifier::external_body]
pub struct ExBip39Error(bip39::Error);

/// The error of `bitcoin::bip32`, carried for its report.
#[verifier::external_type_specification]
#[verifier::external_body]
pub struct ExBip32Error(bitcoin::bip32::Error);

/// The error of `ed25519_dalek`, carried for its report.
#[verifier::external_type_specification]
#[verifier::external_body]
pub struct ExSignatureError(ed25519_dalek::SignatureError);

/// The error of `serde_json`, carried for its report.
#[verifier::external_type_specification]
#[verifier::external_body]
pub struct ExJsonError(serde_json::Error);

/// The error of `rand`, carried for its report.
#[verifier::external_type_specification]
#[verifier::external_body]
pub struct ExRandError(rand::Error);

/// Why a request was refused.
#[derive(Debug)]
pub enum AuthError {
    /// A hex text has an odd number of bytes.
    OddHexLength,
    /// A hex text holds a pair that is no hex number.
    InvalidHex,
    /// A challenge is not 13 bytes long.
    ChallengeLength,
    /// A challenge does not start with the prefix byte.
    ChallengePrefix,
    /// A challenge does not end with the suffix bytes.
    ChallengeSuffix,
    /// There is no address to register.
    NoAddresses,
    /// A wallet file lists no addresses.
    OldWalletFormat,
    /// The index asked for at registration is not in the wallet.
    UnknownIndex(u32),
    /// The index asked for at signing is not in the wallet.
    UnregisteredIndex(u32),
    /// The public key is not the one at the index asked for.
    KeyNotAtIndex(u32),
    /// The public key is nowhere in the wallet.
    KeyNotInWallet,
    /// The seed phrase is no BIP39 phrase.
    SeedPhrase(bip39::Error),
    /// The seed gives no BIP32 master key.
    MasterKey(bitcoin::bip32::Error),
    /// The index is too large for a hardened child.
    ChildNumber(bitcoin::bip32::Error),
    /// The child key could not be derived.
    ChildKey(bitcoin::bip32::Error),
    /// The text of an extended private key is too short to take a seed from.
    ShortXpriv,
    /// The derived public key is not the one in the wallet.
    DerivedKeyMismatch(u32),
    /// The derived address is not the one in the wallet.
    DerivedAddressMismatch(u32),
    /// The signature is not 64 bytes long.
    Signature(ed25519_dalek::SignatureError),
    /// The public key is not 32 bytes long.
    PublicKeyLength,
    /// The public key is no point of the curve.
    PublicKey(ed25519_dalek::SignatureError),
    /// The public key is not in the registry.
    KeyNotRegistered,
    /// The signature is not one of the challenge under the public key.
    SignatureRejected(ed25519_dalek::SignatureError),
    /// The registered address is not the address of the public key.
    AddressMismatch,
    /// The balance service answered with a failure.
    ApiStatus {
        /// The status line of the answer.
        status: String,
        /// The body of the answer.
        text: String,
    },
    /// The balance service answered with something that is no JSON.
    InvalidReply(serde_json::Error),
    /// The address does not own the required item now.
    ItemNotOwned,
    /// The challenge is not the one the server issued last.
    StaleChallenge,
    /// The challenge was accepted before.
    ChallengeUsed,
    /// The operating system gave no random bytes.
    RandomSource(rand::Error),
}

/// What a contract says of an [`AuthError`]: its variant and what the variant says in words, without
/// the error of an outside crate that it may carry.
pub enum ErrorKind {
    OddHexLength,
    InvalidHex,
    ChallengeLength,
    ChallengePrefix,
    ChallengeSuffix,
    NoAddresses,
    OldWalletFormat,
    UnknownIndex(u32),
    UnregisteredIndex(u32),
    KeyNotAtIndex(u32),
    KeyNotInWallet,
    SeedPhrase,
    MasterKey,
    ChildNumber,
    ChildKey,
    ShortXpriv,
    DerivedKeyMismatch(u32),
    DerivedAddressMismatch(u32),
    Signature,
    PublicKeyLength,
    PublicKey,
    KeyNotRegistered,
    SignatureRejected,
    AddressMismatch,
    ApiStatus(Seq<char>, Seq<char>),
    InvalidReply,
    ItemNotOwned,
    StaleChallenge,
    ChallengeUsed,
    RandomSource,
}

impl View for AuthError {
    type V = ErrorKind;

    open spec fn view(&self) -> ErrorKind {
        match *self {
            AuthError::OddHexLength => ErrorKind::OddHexLength,
            AuthError::InvalidHex => ErrorKind::InvalidHex,
            AuthError::ChallengeLength => ErrorKind::ChallengeLength,
            AuthError::ChallengePrefix => ErrorKind::ChallengePrefix,
            AuthError::ChallengeSuffix => ErrorKind::ChallengeSuffix,
            AuthError::NoAddresses => ErrorKind::NoAddresses,
            AuthError::OldWalletFormat => ErrorKind::OldWalletFormat,
            AuthError::UnknownIndex(index) => ErrorKind::UnknownIndex(index),
            AuthError::UnregisteredIndex(index) => ErrorKind::UnregisteredIndex(index),
            AuthError::KeyNotAtIndex(index) => ErrorKind::KeyNotAtIndex(index),
            AuthError::KeyNotInWallet => ErrorKind::KeyNotInWallet,
            AuthError::SeedPhrase(_) => ErrorKind::SeedPhrase,
            AuthError::MasterKey(_) => ErrorKind::MasterKey,
            AuthError::ChildNumber(_) => ErrorKind::ChildNumber,
            AuthError::ChildKey(_) => ErrorKind::ChildKey,
            AuthError::ShortXpriv => ErrorKind::ShortXpriv,
            AuthError::DerivedKeyMismatch(index) => ErrorKind::DerivedKeyMismatch(index),
            AuthError::DerivedAddressMismatch(index) => ErrorKind::DerivedAddressMismatch(index),
            AuthError::Signature(_) => ErrorKind::Signature,
            AuthError::PublicKeyLength => ErrorKind::PublicKeyLength,
            AuthError::PublicKey(_) => ErrorKind::PublicKey,
            AuthError::KeyNotRegistered => ErrorKind::KeyNotRegistered,
            AuthError::SignatureRejected(_) => ErrorKind::SignatureRejected,
            AuthError::AddressMismatch => ErrorKind::AddressMismatch,
            AuthError::ApiStatus { status, text } => ErrorKind::ApiStatus(status@, text@),
            AuthError::InvalidReply(_) => ErrorKind::InvalidReply,
            AuthError::ItemNotOwned => ErrorKind::ItemNotOwned,
            AuthError::StaleChallenge => ErrorKind::StaleChallenge,
            AuthError::ChallengeUsed => ErrorKind::ChallengeUsed,
            AuthError::RandomSource(_) => ErrorKind::RandomSource,
        }
    }
}

/// A result by its views: the value's where there is one, else the kind of the error.
pub open spec fn outcome<T: View>(result: Result<T, AuthError>) -> Result<T::V, ErrorKind> {
    match result {
        Ok(value) => Ok(value@),
        Err(error) => Err(error@),
    }
}

/// An optional value by its view.
pub open spec fn view_option<T: View>(option: Option<T>) -> Option<T::V> {
    match option {
        Some(value) => Some(value@),
        None => None,
    }
}

impl ErrorKind {
    /// The words in which the error is reported; none where the outside error speaks for itself.
    pub open spec fn words(self) -> Option<Seq<char>> {
        match self {
            ErrorKind::OddHexLength => Some("hex string must have even length"@),
            ErrorKind::InvalidHex => Some("invalid hex"@),
            ErrorKind::ChallengeLength => Some("challenge must be exactly 13 bytes"@),
            ErrorKind::ChallengePrefix => Some("challenge must start with 0x6a"@),
            ErrorKind::ChallengeSuffix => Some("challenge must end with 0xF9BEB4D9"@),
            ErrorKind::NoAddresses => Some(
                "wallet contains no addresses; create an address with Tiny Wallet first"@,
            ),
            ErrorKind::OldWalletFormat => Some(
                "wallet.json contains no addresses; this chain_react version expects the new Tiny Wallet format"@,
            ),
            ErrorKind::UnknownIndex(index) => Some(
                "wallet does not contain address index "@ + decimal(index as nat),
            ),
            ErrorKind::UnregisteredIndex(index) => Some(
                "wallet does not contain registered address index "@ + decimal(index as nat),
            ),
            ErrorKind::KeyNotAtIndex(index) => Some(
                "public key does not belong to wallet address index "@ + decimal(index as nat),
            ),
            ErrorKind::KeyNotInWallet => Some(
                "public key does not belong to any address in the local wallet"@,
            ),
            ErrorKind::SeedPhrase => None,
            ErrorKind::MasterKey => Some("failed to construct BIP32 master key"@),
            ErrorKind::ChildNumber => None,
            ErrorKind::ChildKey => Some("failed to derive Lineage child key"@),
            ErrorKind::ShortXpriv => Some("unexpectedly short xpriv string"@),
            ErrorKind::DerivedKeyMismatch(index) => Some(
                "derived public key does not match wallet.json for address index "@ + decimal(
                    index as nat,
                ),
            ),
            ErrorKind::DerivedAddressMismatch(index) => Some(
                "derived address does not match wallet.json for address index "@ + decimal(
                    index as nat,
                ),
            ),
            ErrorKind::Signature => Some("invalid Ed25519 signature"@),
            ErrorKind::PublicKeyLength => Some("public key must be 32 bytes"@),
            ErrorKind::PublicKey => Some("invalid Ed25519 public key"@),
            ErrorKind::KeyNotRegistered => Some("public key is not registered"@),
            ErrorKind::SignatureRejected => Some("signature verification failed"@),
            ErrorKind::AddressMismatch => Some(
                "registered public key does not match registered address"@,
            ),
            ErrorKind::ApiStatus(status, text) => Some(
                "Lineage API returned "@ + status + ": "@ + text,
            ),
            ErrorKind::InvalidReply => Some("invalid Lineage JSON"@),
            ErrorKind::ItemNotOwned => Some(
                "authentication failed: required item is not currently owned by this address"@,
            ),
            ErrorKind::StaleChallenge => Some("challenge is not the current server challenge"@),
            ErrorKind::ChallengeUsed => Some("challenge has already been used"@),
            ErrorKind::RandomSource => None,
        }
    }
}

/// A text followed by a number in decimal.
fn numbered(words: &str, index: u32) -> (text: String)
    ensures
        text@ == words@ + decimal(index as nat),
{
    words.to_owned().concat(decimal_text(index).as_str())
}

impl AuthError {
    /// The words in which the error is reported. An error of an outside crate that is passed on
    /// under no heading of its own has none: its own text is the report.
    pub fn message(&self) -> (message: Option<String>)
        ensures
            view_option(message) == self@.words(),
    {
        let message: String = match self {
            AuthError::OddHexLength => "hex string must have even length".to_owned(),
            AuthError::InvalidHex => "invalid hex".to_owned(),
            AuthError::ChallengeLength => "challenge must be exactly 13 bytes".to_owned(),
            AuthError::ChallengePrefix => "challenge must start with 0x6a".to_owned(),
            AuthError::ChallengeSuffix => "challenge must end with 0xF9BEB4D9".to_owned(),
            AuthError::NoAddresses =>
                "wallet contains no addresses; create an address with Tiny Wallet first".to_owned(),
            AuthError::OldWalletFormat =>
                "wallet.json contains no addresses; this chain_react version expects the new Tiny Wallet format".to_owned(),
            AuthError::UnknownIndex(index) =>
                numbered("wallet does not contain address index ", *index),
            AuthError::UnregisteredIndex(index) =>
                numbered("wallet does not contain registered address index ", *index),
            AuthError::KeyNotAtIndex(index) =>
                numbered("public key does not belong to wallet address index ", *index),
            AuthError::KeyNotInWallet =>
                "public key does not belong to any address in the local wallet".to_owned(),
            AuthError::SeedPhrase(_) => {
                return None;
            },
            AuthError::MasterKey(_) => "failed to construct BIP32 master key".to_owned(),
            AuthError::ChildNumber(_) => {
                return None;
            },
            AuthError::ChildKey(_) => "failed to derive Lineage child key".to_owned(),
            AuthError::ShortXpriv => "unexpectedly short xpriv string".to_owned(),
            AuthError::DerivedKeyMismatch(index) =>
                numbered(
                    "derived public key does not match wallet.json for address index ",
                    *index,
                ),
            AuthError::DerivedAddressMismatch(index) =>
                numbered("derived address does not match wallet.json for address index ", *index),
            AuthError::Signature(_) => "invalid Ed25519 signature".to_owned(),
            AuthError::PublicKeyLength => "public key must be 32 bytes".to_owned(),
            AuthError::PublicKey(_) => "invalid Ed25519 public key".to_owned(),
            AuthError::KeyNotRegistered => "public key is not registered".to_owned(),
            AuthError::SignatureRejected(_) => "signature verification failed".to_owned(),
            AuthError::AddressMismatch =>
                "registered public key does not match registered address".to_owned(),
            AuthError::ApiStatus { status, text } =>
                "Lineage API returned ".to_owned().concat(status.as_str()).concat(": ").concat(
                    text.as_str(),
                ),
            AuthError::InvalidReply(_) => "invalid Lineage JSON".to_owned(),
            AuthError::ItemNotOwned =>
                "authentication failed: required item is not currently owned by this address".to_owned(),
            AuthError::StaleChallenge => "challenge is not the current server challenge".to_owned(),
            AuthError::ChallengeUsed => "challenge has already been used".to_owned(),
            AuthError::RandomSource(_) => {
                return None;
            },
        };
        Some(message)
    }
}

/// An error is of its own kind: the kind has the variant of the error, and the numbers and texts
/// that it carries.
pub proof fn error_is_of_its_own_kind(error: AuthError)
    ensures
        error is OddHexLength <==> error@ is OddHexLength,
        error is InvalidHex <==> error@ is InvalidHex,
        error is ChallengeLength <==> error@ is ChallengeLength,
        error is ChallengePrefix <==> error@ is ChallengePrefix,
        error is ChallengeSuffix <==> error@ is ChallengeSuffix,
        error is NoAddresses <==> error@ is NoAddresses,
        error is OldWalletFormat <==> error@ is OldWalletFormat,
        error is UnknownIndex <==> error@ is UnknownIndex,
        error is UnregisteredIndex <==> error@ is UnregisteredIndex,
        error is KeyNotAtIndex <==> error@ is KeyNotAtIndex,
        error is KeyNotInWallet <==> error@ is KeyNotInWallet,
        error is SeedPhrase <==> error@ is SeedPhrase,
        error is MasterKey <==> error@ is MasterKey,
        error is ChildNumber <==> error@ is ChildNumber,
        error is ChildKey <==> error@ is ChildKey,
        error is ShortXpriv <==> error@ is ShortXpriv,
        error is DerivedKeyMismatch <==> error@ is DerivedKeyMismatch,
        error is DerivedAddressMismatch <==> error@ is DerivedAddressMismatch,
        error is Signature <==> error@ is Signature,
        error is PublicKeyLength <==> error@ is PublicKeyLength,
        error is PublicKey <==> error@ is PublicKey,
        error is KeyNotRegistered <==> error@ is KeyNotRegistered,
        error is SignatureRejected <==> error@ is SignatureRejected,
        error is AddressMismatch <==> error@ is AddressMismatch,
        error is ApiStatus <==> error@ is ApiStatus,
        error is InvalidReply <==> error@ is InvalidReply,
        error is ItemNotOwned <==> error@ is ItemNotOwned,
        error is StaleChallenge <==> error@ is StaleChallenge,
        error is ChallengeUsed <==> error@ is ChallengeUsed,
        error is RandomSource <==> error@ is RandomSource,
        error matches AuthError::UnknownIndex(index) ==> error@ == ErrorKind::UnknownIndex(index),
        error matches AuthError::UnregisteredIndex(index) ==> error@
            == ErrorKind::UnregisteredIndex(index),
        error matches AuthError::KeyNotAtIndex(index) ==> error@ == ErrorKind::KeyNotAtIndex(index),
        error matches AuthError::DerivedKeyMismatch(index) ==> error@
            == ErrorKind::DerivedKeyMismatch(index),
        error matches AuthError::DerivedAddressMismatch(index) ==> error@
            == ErrorKind::DerivedAddressMismatch(index),
        error matches AuthError::ApiStatus { status, text } ==> error@ == ErrorKind::ApiStatus(
            status@,
            text@,
        ),
{
}

/// An error about an index says which, in decimal, after its words; one about a failure of the
/// balance service says its status and its text.
pub proof fn errors_say_what_they_carry(index: u32, status: Seq<char>, text: Seq<char>)
    ensures
        ErrorKind::UnknownIndex(index).words() == Some(
            "wallet does not contain address index "@ + decimal(index as nat),
        ),
        ErrorKind::UnregisteredIndex(index).words() == Some(
            "wallet does not contain registered address index "@ + decimal(index as nat),
        ),
        ErrorKind::KeyNotAtIndex(index).words() == Some(
            "public key does not belong to wallet address index "@ + decimal(index as nat),
        ),
        ErrorKind::DerivedKeyMismatch(index).words() == Some(
            "derived public key does not match wallet.json for address index "@ + decimal(
                index as nat,
            ),
        ),
        ErrorKind::DerivedAddressMismatch(index).words() == Some(
            "derived address does not match wallet.json for address index "@ + decimal(
                index as nat,
            ),
        ),
        ErrorKind::ApiStatus(status, text).words() == Some(
            "Lineage API returned "@ + status + ": "@ + text,
        ),
{
}

/// A result is seen as it is: a value by its view, an error by its kind.
pub proof fn results_are_seen_as_they_are<T: View>(value: T, error: AuthError)
    ensures
        outcome(Ok::<T, AuthError>(value)) == Ok::<T::V, ErrorKind>(value@),
        outcome(Err::<T, AuthError>(error)) == Err::<T::V, ErrorKind>(error@),
        view_option(Some(value)) == Some(value@),
        view_option(None::<T>) == None::<T::V>,
{
}

} // verus!
