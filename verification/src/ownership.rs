//! Whether an address owns an item now, by the word of the balance service.

use vstd::prelude::*;

use crate::error::{outcome, AuthError, ErrorKind};
use crate::json::{json_tree, parse_json, Json, JsonTree};
use crate::text::{
    ascii_lower, only_end_slashes_are_dropped, same_ignoring_case, texts, trim_end_slashes,
    without_end_slashes,
};

verus! {

/// A question to the balance service.
#[derive(Debug)]
pub struct BalanceQuery {
    /// Where to send it.
    pub url: String,
    /// The addresses whose balances are asked for.
    pub addresses: Vec<String>,
}

/// What a [`BalanceQuery`] holds.
pub struct BalanceQueryView {
    pub url: Seq<char>,
    pub addresses: Seq<Seq<char>>,
}

impl View for BalanceQuery {
    type V = BalanceQueryView;

    open spec fn view(&self) -> BalanceQueryView {
        BalanceQueryView { url: self.url@, addresses: texts(self.addresses@) }
    }
}

/// The question for the balance of one address.
pub open spec fn query_for(mempool: Seq<char>, address: Seq<char>) -> BalanceQueryView {
    BalanceQueryView {
        url: without_end_slashes(mempool) + "/v1/balances/query"@,
        addresses: seq![address],
    }
}

/// Puts the question for the balance of one address.
pub fn balance_query(mempool: &str, address: &str) -> (query: BalanceQuery)
    ensures
        query@ == query_for(mempool@, address@),
{
    let url: String = trim_end_slashes(mempool).to_owned().concat("/v1/balances/query");
    let addresses: Vec<String> = vec![address.to_owned()];
    assert(texts(addresses@) =~= seq![address@]);
    BalanceQuery { url, addresses }
}

/// An answer of the balance service.
#[derive(Debug)]
pub struct BalanceReply {
    /// The HTTP status code.
    pub status: u16,
    /// The status as it is reported.
    pub status_line: String,
    /// The body.
    pub text: String,
}

/// What a [`BalanceReply`] holds.
pub struct BalanceReplyView {
    pub status: u16,
    pub status_line: Seq<char>,
    pub text: Seq<char>,
}

impl View for BalanceReply {
    type V = BalanceReplyView;

    open spec fn view(&self) -> BalanceReplyView {
        BalanceReplyView {
            status: self.status,
            status_line: self.status_line@,
            text: self.text@,
        }
    }
}

/// The genesis hash of an item; none at all is the empty one.
pub open spec fn genesis_of(item: JsonTree) -> Seq<char> {
    match item.field("genesis_hash"@) {
        Some(value) => match value.characters() {
            Some(genesis) => genesis,
            None => Seq::empty(),
        },
        None => Seq::empty(),
    }
}

/// The amount of an item; none at all is 0.
pub open spec fn amount_of(item: JsonTree) -> u64 {
    match item.field("amount"@) {
        Some(value) => match value.number() {
            Some(amount) => amount,
            None => 0,
        },
        None => 0,
    }
}

/// An entry of a balance is a positive amount of the item.
pub open spec fn entry_is_item(entry: JsonTree, required_genesis: Seq<char>) -> bool {
    match entry.field("value"@) {
        Some(value) => match value.field("Item"@) {
            Some(item) => amount_of(item) > 0 && same_ignoring_case(
                genesis_of(item),
                required_genesis,
            ),
            None => false,
        },
        None => false,
    }
}

/// The part of an answer that lists addresses: what stands under `balance`, or else the answer.
pub open spec fn balance_root(answer: JsonTree) -> JsonTree {
    match answer.field("balance"@) {
        Some(balance) => balance,
        None => answer,
    }
}

/// The entries that an answer lists for an address.
pub open spec fn entries_of(answer: JsonTree, address: Seq<char>) -> Option<Seq<JsonTree>> {
    match balance_root(answer).field("address_list"@) {
        Some(list) => match list.field(address) {
            Some(entries) => entries.items(),
            None => None,
        },
        None => None,
    }
}

/// One of some entries is a positive amount of the item.
pub open spec fn some_entry_is_item(entries: Seq<JsonTree>, required_genesis: Seq<char>) -> bool {
    exists|i: int|
        0 <= i < entries.len() && entry_is_item(#[trigger] entries[i], required_genesis)
}

/// An answer shows a positive amount of the item at the address.
pub open spec fn shows_item(
    answer: JsonTree,
    address: Seq<char>,
    required_genesis: Seq<char>,
) -> bool {
    match entries_of(answer, address) {
        Some(entries) => some_entry_is_item(entries, required_genesis),
        None => false,
    }
}

/// Whether an entry of a balance is a positive amount of the item.
fn is_item(entry: &Json, required_genesis: &str) -> (yes: bool)
    ensures
        yes == entry_is_item(entry@, required_genesis@),
{
    let item: &Json = match entry.get("value") {
        Some(value) => match value.get("Item") {
            Some(item) => item,
            None => {
                return false;
            },
        },
        None => {
            return false;
        },
    };
    let amount: u64 = match item.get("amount") {
        Some(value) => match value.as_u64() {
            Some(amount) => amount,
            None => 0,
        },
        None => 0,
    };
    proof {
        reveal_strlit("");
        assert(""@ =~= Seq::<char>::empty());
    }
    let genesis: &str = match item.get("genesis_hash") {
        Some(value) => match value.as_str() {
            Some(genesis) => genesis,
            None => "",
        },
        None => "",
    };
    amount > 0 && genesis.eq_ignore_ascii_case(required_genesis)
}

/// Whether an answer shows a positive amount of the item at the address.
pub fn answer_shows_item(answer: &Json, address: &str, required_genesis: &str) -> (shown: bool)
    ensures
        shown == shows_item(answer@, address@, required_genesis@),
{
    let root: &Json = match answer.get("balance") {
        Some(balance) => balance,
        None => answer,
    };
    let listed: Option<&Json> = match root.get("address_list") {
        Some(list) => list.get(address),
        None => None,
    };
    match listed {
        Some(Json::List(entries)) => {
            let ghost all = entries_of(answer@, address@)->0;
            let mut i: usize = 0;
            while i < entries.len()
                invariant
                    entries_of(answer@, address@) == Some(all),
                    all.len() == entries@.len(),
                    forall|j: int| 0 <= j < all.len() ==> (#[trigger] all[j]) == entries@[j]@,
                    i <= entries@.len(),
                    forall|j: int|
                        0 <= j < i ==> !entry_is_item(#[trigger] all[j], required_genesis@),
                decreases entries@.len() - i,
            {
                assert(all[i as int] == entries@[i as int]@);
                if is_item(&entries[i], required_genesis) {
                    assert(some_entry_is_item(all, required_genesis@));
                    return true;
                }
                i = i + 1;
            }
            false
        },
        _ => false,
    }
}

/// What an answer of the balance service says of an item at an address.
pub open spec fn ownership(
    reply: BalanceReplyView,
    address: Seq<char>,
    required_genesis: Seq<char>,
) -> Result<bool, ErrorKind> {
    if !(200 <= reply.status < 300) {
        Err(ErrorKind::ApiStatus(reply.status_line, reply.text))
    } else {
        match json_tree(reply.text) {
            None => Err(ErrorKind::InvalidReply),
            Some(answer) => Ok(shows_item(answer, address, required_genesis)),
        }
    }
}

/// Reads in an answer of the balance service whether the address owns the item.
pub fn owns_item(reply: &BalanceReply, address: &str, required_genesis: &str) -> (result: Result<
    bool,
    AuthError,
>)
    ensures
        outcome(result) == ownership(reply@, address@, required_genesis@),
{
    if !(200 <= reply.status && reply.status < 300) {
        return Err(
            AuthError::ApiStatus { status: reply.status_line.clone(), text: reply.text.clone() },
        );
    }
    match parse_json(reply.text.as_str()) {
        Ok(answer) => Ok(answer_shows_item(&answer, address, required_genesis)),
        Err(error) => Err(error),
    }
}

/// Both shapes of an answer say the same: a list of addresses under `balance`, and the same list at
/// the root, as older answers have it.
pub proof fn both_shapes_of_an_answer_say_the_same(
    balance: JsonTree,
    address: Seq<char>,
    required_genesis: Seq<char>,
)
    requires
        balance.field("balance"@) is None,
    ensures
        shows_item(
            JsonTree::Object(seq![("balance"@, balance)]),
            address,
            required_genesis,
        ) == shows_item(balance, address, required_genesis),
{
}

/// An entry counts only if it is a positive amount of an item with the genesis hash asked for. Where
/// the empty hash is asked for, an item without a hash counts too.
pub proof fn only_a_positive_amount_of_the_item_counts(entry: JsonTree, required_genesis: Seq<char>)
    requires
        entry_is_item(entry, required_genesis),
    ensures
        ({
            let item = entry.field("value"@)->0.field("Item"@)->0;
            &&& item.field("amount"@) matches Some(JsonTree::Number(Some(amount))) && amount > 0
            &&& required_genesis.len() > 0 ==> (item.field("genesis_hash"@) matches Some(
                JsonTree::Text(genesis),
            ) && same_ignoring_case(genesis, required_genesis))
        }),
{
    let item = entry.field("value"@)->0.field("Item"@)->0;
    assert(ascii_lower(genesis_of(item)).len() == ascii_lower(required_genesis).len());
}

/// The question for a balance goes to the path of the service under the configured URL, of which
/// nothing is dropped but the slashes at its end, and asks for the one address.
pub proof fn question_goes_to_the_configured_service(mempool: Seq<char>, address: Seq<char>)
    ensures
        query_for(mempool, address).addresses == seq![address],
        exists|n: int|
            {
                &&& 0 <= n <= mempool.len()
                &&& query_for(mempool, address).url == #[trigger] mempool.take(n)
                    + "/v1/balances/query"@
                &&& forall|i: int| n <= i < mempool.len() ==> (#[trigger] mempool[i]) == '/'
                &&& n > 0 ==> mempool[n - 1] != '/'
            },
        mempool.len() > 0 && mempool.last() != '/' ==> query_for(mempool, address).url == mempool
            + "/v1/balances/query"@,
{
    only_end_slashes_are_dropped(mempool);
    let n = without_end_slashes(mempool).len() as int;
    assert(query_for(mempool, address).url == mempool.take(n) + "/v1/balances/query"@);
    if n > 0 {
        assert(mempool.take(n).last() == mempool[n - 1]);
    }
}

/// Every entry counts, wherever it stands in the list of the address: if one of them is an item with
/// a positive amount and the genesis hash asked for, whatever its case, the item is shown. An item
/// without a hash has the empty one. The list stands under `balance`, or at the root where there is
/// no `balance`.
pub proof fn any_entry_of_the_item_shows_it(
    answer: JsonTree,
    root: JsonTree,
    address: Seq<char>,
    required_genesis: Seq<char>,
    list: JsonTree,
    entries: Seq<JsonTree>,
    i: int,
    value: JsonTree,
    item: JsonTree,
    amount: u64,
)
    requires
        answer.field("balance"@) == Some(root) || answer.field("balance"@) is None && root == answer,
        root.field("address_list"@) == Some(list),
        list.field(address) == Some(JsonTree::List(entries)),
        0 <= i < entries.len(),
        entries[i].field("value"@) == Some(value),
        value.field("Item"@) == Some(item),
        match item.field("genesis_hash"@) {
            Some(JsonTree::Text(genesis)) => same_ignoring_case(genesis, required_genesis),
            _ => required_genesis.len() == 0,
        },
        item.field("amount"@) == Some(JsonTree::Number(Some(amount))),
        amount > 0,
    ensures
        shows_item(answer, address, required_genesis),
{
    assert(required_genesis.len() == 0 ==> required_genesis =~= Seq::<char>::empty());
    assert(entry_is_item(entries[i], required_genesis));
}

/// An item is shown only by an entry of the list of the address that is an item with a positive
/// amount and the genesis hash asked for. An item without a hash has the empty one.
pub proof fn only_an_entry_of_the_item_shows_it(
    answer: JsonTree,
    root: JsonTree,
    address: Seq<char>,
    required_genesis: Seq<char>,
)
    requires
        answer.field("balance"@) == Some(root) || answer.field("balance"@) is None && root == answer,
        shows_item(answer, address, required_genesis),
    ensures
        ({
            let entries = root.field("address_list"@)->0.field(address)->0->List_0;
            &&& root.field("address_list"@) is Some
            &&& root.field("address_list"@)->0.field(address) is Some
            &&& root.field("address_list"@)->0.field(address)->0 is List
            &&& exists|i: int|
                {
                    let value = (#[trigger] entries[i]).field("value"@);
                    let item = value->0.field("Item"@);
                    &&& 0 <= i < entries.len()
                    &&& value is Some
                    &&& item is Some
                    &&& item->0.field("amount"@) matches Some(JsonTree::Number(Some(amount)))
                        && amount > 0
                    &&& match item->0.field("genesis_hash"@) {
                        Some(JsonTree::Text(genesis)) => same_ignoring_case(
                            genesis,
                            required_genesis,
                        ),
                        _ => required_genesis.len() == 0,
                    }
                }
        }),
{
    let entries = root.field("address_list"@)->0.field(address)->0->List_0;
    assert(entries_of(answer, address) == Some(entries));
    let i = choose|i: int|
        0 <= i < entries.len() && entry_is_item(#[trigger] entries[i], required_genesis);
    let item = entries[i].field("value"@)->0.field("Item"@)->0;
    assert(ascii_lower(genesis_of(item)).len() == ascii_lower(required_genesis).len());
}

/// An answer is read if its status is a success and its text is JSON, and says what it shows; a
/// failure is reported by its status and its text.
pub proof fn answer_is_read_if_it_succeeds(
    reply: BalanceReplyView,
    address: Seq<char>,
    required_genesis: Seq<char>,
)
    ensures
        reply.status < 200 || reply.status >= 300 ==> ownership(reply, address, required_genesis)
            == Err::<bool, ErrorKind>(ErrorKind::ApiStatus(reply.status_line, reply.text)),
        200 <= reply.status < 300 ==> match json_tree(reply.text) {
            None => ownership(reply, address, required_genesis) == Err::<bool, ErrorKind>(
                ErrorKind::InvalidReply,
            ),
            Some(answer) => ownership(reply, address, required_genesis) == Ok::<bool, ErrorKind>(
                shows_item(answer, address, required_genesis),
            ),
        },
{
}

/// A question and an answer are seen as they are.
pub proof fn question_and_answer_are_seen_as_they_are(query: BalanceQuery, reply: BalanceReply)
    ensures
        query@.url == query.url@,
        query@.addresses.len() == query.addresses@.len(),
        forall|i: int|
            0 <= i < query.addresses@.len() ==> (#[trigger] query@.addresses[i])
                == query.addresses@[i]@,
        reply@.status == reply.status,
        reply@.status_line == reply.status_line@,
        reply@.text == reply.text@,
{
}

} // verus!
