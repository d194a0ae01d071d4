//! The JSON texts in which a protocol runner hands out the receipts of a block.
use crate::rewards::error::RewardsError;
use crate::text::texts;
use serde_json::value::RawValue;
use serde_json::Value;
use std::collections::BTreeMap;
use vstd::prelude::*;

verus! {

/// The validation pass of the anonymous operations.
pub const ANONYMOUS_PASS: usize = 2;

/// The members of the JSON object that a text holds, in alphabetical order of their names, each
/// value as its JSON text; nothing if the text holds no JSON object.
pub uninterp spec fn json_members(text: Seq<char>) -> Option<Seq<(Seq<char>, Seq<char>)>>;

/// The items of the JSON array that a text holds, each as its JSON text; nothing if the text
/// holds no JSON array.
pub uninterp spec fn json_items(text: Seq<char>) -> Option<Seq<Seq<char>>>;

/// The items of the JSON array of JSON arrays that a text holds, each as the JSON text that it
/// was written as; nothing if the text holds no such array.
pub uninterp spec fn json_lists(text: Seq<char>) -> Option<Seq<Seq<Seq<char>>>>;

/// The texts of named texts.
pub open spec fn member_texts(members: Seq<(String, String)>) -> Seq<(Seq<char>, Seq<char>)> {
    members.map_values(|m: (String, String)| (m.0@, m.1@))
}

/// The texts of lists of texts.
pub open spec fn list_texts(lists: Seq<Vec<String>>) -> Seq<Seq<Seq<char>>> {
    lists.map_values(|list: Vec<String>| texts(list@))
}

/// Calls `serde_json::from_str` for a map of JSON values. Trusted: the outcome depends on the
/// text alone. What JSON is is not stated here.
#[verifier::external_body]
fn parse_members(text: &str) -> (r: Option<Vec<(String, String)>>)
    ensures
        r is Some <==> json_members(text@) is Some,
        r matches Some(members) ==> json_members(text@) == Some(member_texts(members@)),
{
    let members = serde_json::from_str::<BTreeMap<String, Value>>(text).ok()?;
    Some(members.into_iter().map(|(name, value)| (name, value.to_string())).collect())
}

/// Calls `serde_json::from_str` for a list of JSON values. Trusted: the outcome depends on the
/// text alone. What JSON is is not stated here.
#[verifier::external_body]
fn parse_items(text: &str) -> (r: Option<Vec<String>>)
    ensures
        r is Some <==> json_items(text@) is Some,
        r matches Some(items) ==> json_items(text@) == Some(texts(items@)),
{
    let items = serde_json::from_str::<Vec<Value>>(text).ok()?;
    Some(items.into_iter().map(|value| value.to_string()).collect())
}

/// Calls `serde_json::from_str` for a list of lists of raw JSON values. Trusted: the outcome
/// depends on the text alone. What JSON is is not stated here.
#[verifier::external_body]
fn parse_lists(text: &str) -> (r: Option<Vec<Vec<String>>>)
    ensures
        r is Some <==> json_lists(text@) is Some,
        r matches Some(lists) ==> json_lists(text@) == Some(list_texts(lists@)),
{
    let lists = serde_json::from_str::<Vec<Vec<Box<RawValue>>>>(text).ok()?;
    let raw = |list: Vec<Box<RawValue>>| list.iter().map(|v| v.get().to_owned()).collect();
    Some(lists.into_iter().map(raw).collect())
}

/// The value of a member, the first of its name.
pub open spec fn member_named(members: Seq<(Seq<char>, Seq<char>)>, name: Seq<char>) -> Option<
    Seq<char>,
>
    decreases members.len(),
{
    if members.len() == 0 {
        None
    } else if members[0].0 == name {
        Some(members[0].1)
    } else {
        member_named(members.skip(1), name)
    }
}

/// The value of the member `balance_updates`; an unreadable receipt has no members.
pub open spec fn balance_updates_member(members: Option<Seq<(Seq<char>, Seq<char>)>>) -> Option<
    Seq<char>,
> {
    match members {
        Some(members) => member_named(members, "balance_updates"@),
        None => None,
    }
}

/// The balance updates in the receipt of a block, each as its JSON text.
pub open spec fn balance_update_texts(receipt: Seq<char>) -> Result<Seq<Seq<char>>, RewardsError> {
    match balance_updates_member(json_members(receipt)) {
        None => Err(RewardsError::BalanceUpdatesNotFound),
        Some(value) => match json_items(value) {
            None => Err(RewardsError::BalanceUpdatesNotArray),
            Some(items) => Ok(items),
        },
    }
}

/// The validation passes of a block; an unreadable receipt has none.
pub open spec fn pass_texts(lists: Option<Seq<Seq<Seq<char>>>>) -> Seq<Seq<Seq<char>>> {
    match lists {
        Some(lists) => lists,
        None => Seq::empty(),
    }
}

/// The value of the member `balance_updates` among the members of a receipt.
pub fn find_balance_updates(members: Option<Vec<(String, String)>>) -> (r: Option<String>)
    ensures
        ({
            let found = balance_updates_member(
                match members {
                    Some(list) => Some(member_texts(list@)),
                    None => None,
                },
            );
            &&& r is Some <==> found is Some
            &&& r matches Some(value) ==> found == Some(value@)
        }),
        members is None ==> r is None,
        members matches Some(list) ==> match r {
            Some(value) => exists|i: int|
                0 <= i < list@.len() && (#[trigger] list@[i]).0@ == "balance_updates"@ && list@[i].1@
                    == value@ && forall|j: int|
                    0 <= j < i ==> (#[trigger] list@[j]).0@ != "balance_updates"@,
            None => forall|j: int|
                0 <= j < list@.len() ==> (#[trigger] list@[j]).0@ != "balance_updates"@,
        },
{
    match members {
        None => None,
        Some(list) => {
            let name: String = "balance_updates".to_owned();
            let count: usize = list.len();
            let ghost all = member_texts(list@);
            let mut i: usize = 0;
            assert(all.skip(0) =~= all);
            while i < count
                invariant
                    count == list@.len(),
                    i <= count,
                    all == member_texts(list@),
                    name@ == "balance_updates"@,
                    members == Some(list),
                    member_named(all, name@) == member_named(all.skip(i as int), name@),
                    forall|j: int|
                        0 <= j < i ==> (#[trigger] list@[j]).0@ != "balance_updates"@,
                decreases count - i,
            {
                assert(all.skip(i as int)[0] == (list@[i as int].0@, list@[i as int].1@));
                if list[i].0 == name {
                    return Some(list[i].1.clone());
                }
                assert(all.skip(i as int).skip(1) =~= all.skip(i + 1));
                i = i + 1;
            }
            None
        },
    }
}

/// The balance updates of a receipt, if the member `balance_updates` is there and is an array of
/// these items.
pub fn read_balance_updates(found: bool, items: Option<Vec<String>>) -> (r: Result<
    Vec<String>,
    RewardsError,
>)
    ensures
        !found ==> r == Err::<Vec<String>, RewardsError>(RewardsError::BalanceUpdatesNotFound),
        found && items is None ==> r == Err::<Vec<String>, RewardsError>(
            RewardsError::BalanceUpdatesNotArray,
        ),
        found && items is Some ==> r == Ok::<Vec<String>, RewardsError>(items->Some_0),
{
    if !found {
        return Err(RewardsError::BalanceUpdatesNotFound);
    }
    match items {
        None => Err(RewardsError::BalanceUpdatesNotArray),
        Some(items) => Ok(items),
    }
}

/// The balance updates in the receipt of a block, each as its JSON text.
pub fn block_balance_updates(receipt: &str) -> (r: Result<Vec<String>, RewardsError>)
    ensures
        match balance_update_texts(receipt@) {
            Ok(items) => r is Ok && texts(r->Ok_0@) == items,
            Err(e) => r == Err::<Vec<String>, RewardsError>(e),
        },
{
    match find_balance_updates(parse_members(receipt)) {
        None => read_balance_updates(false, None),
        Some(value) => read_balance_updates(true, parse_items(value.as_str())),
    }
}

/// The operations of the anonymous validation pass among the operations of all passes; nothing if
/// there are fewer passes.
pub fn anonymous_pass(lists: Option<Vec<Vec<String>>>) -> (r: Option<Vec<String>>)
    ensures
        r == match lists {
            Some(lists) => if lists@.len() > ANONYMOUS_PASS {
                Some(lists@[ANONYMOUS_PASS as int])
            } else {
                None
            },
            None => None,
        },
        r matches Some(list) ==> (lists matches Some(all) && all@.len() > 2 && list == all@[2]),
        r is None ==> (lists matches Some(all) ==> all@.len() <= 2),
{
    match lists {
        None => None,
        Some(lists) => {
            let mut lists = lists;
            if lists.len() > ANONYMOUS_PASS {
                Some(lists.swap_remove(ANONYMOUS_PASS))
            } else {
                None
            }
        },
    }
}

/// The operations of the anonymous validation pass, each as its JSON text; nothing if the receipt
/// has fewer passes.
pub fn anonymous_operations(receipt: &str) -> (r: Option<Vec<String>>)
    ensures
        r is Some <==> pass_texts(json_lists(receipt@)).len() > ANONYMOUS_PASS,
        r matches Some(list) ==> texts(list@) == pass_texts(
            json_lists(receipt@),
        )[ANONYMOUS_PASS as int],
        r matches Some(list) ==> (json_lists(receipt@) matches Some(lists) && lists.len() > 2
            && texts(list@) == lists[2]),
        r is None ==> (json_lists(receipt@) matches Some(lists) ==> lists.len() <= 2),
{
    anonymous_pass(parse_lists(receipt))
}

} // verus!
