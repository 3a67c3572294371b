//! What the chain holds after registrations: one endpoint for each pair of
//! account and subnet, the one registered last.

use crate::endpoint::AccountId;
use crate::endpoint::AxonCall;
use crate::integrity::digests_match;
use vstd::prelude::*;

verus! {

/// What a registration is filed under: the account and the subnet.
pub open spec fn key_of(call: AxonCall) -> (AccountId, u16) {
    (call.account, call.netuid)
}

/// Whether one of `entries` is filed under `key`.
pub open spec fn filed(entries: Seq<AxonCall>, key: (AccountId, u16)) -> bool {
    exists|i: int| 0 <= i < entries.len() && key_of(#[trigger] entries[i]) == key
}

/// The place of an entry filed under `key`.
pub open spec fn place_of(entries: Seq<AxonCall>, key: (AccountId, u16)) -> int {
    choose|i: int| 0 <= i < entries.len() && key_of(#[trigger] entries[i]) == key
}

/// No two of `entries` are filed under the same key.
pub open spec fn distinct(entries: Seq<AxonCall>) -> bool {
    forall|i: int, j: int|
        0 <= i < j < entries.len() ==> key_of(#[trigger] entries[i]) != key_of(
            #[trigger] entries[j],
        )
}

/// Where no key occurs twice, the place of a key is the place of the one
/// entry filed under it.
pub proof fn lemma_place_is_unique(entries: Seq<AxonCall>, i: int)
    requires
        distinct(entries),
        0 <= i < entries.len(),
    ensures
        filed(entries, key_of(entries[i])),
        place_of(entries, key_of(entries[i])) == i,
{
    let key = key_of(entries[i]);
    let j = place_of(entries, key);
    assert(0 <= j < entries.len() && key_of(entries[j]) == key);
    if j < i {
        assert(key_of(entries[j]) != key_of(entries[i]));
    } else if i < j {
        assert(key_of(entries[i]) != key_of(entries[j]));
    }
}

/// The registrations a chain holds.
pub struct ChainLedger {
    entries: Vec<AxonCall>,
}

impl View for ChainLedger {
    type V = Map<(AccountId, u16), AxonCall>;

    /// The endpoint registered under each pair of account and subnet.
    closed spec fn view(&self) -> Map<(AccountId, u16), AxonCall> {
        Map::new(
            |key: (AccountId, u16)| filed(self.entries@, key),
            |key: (AccountId, u16)| self.entries@[place_of(self.entries@, key)],
        )
    }
}

fn same_key(a: &AxonCall, account: &AccountId, netuid: u16) -> (same: bool)
    ensures
        same == (key_of(*a) == (*account, netuid)),
{
    let same = a.netuid == netuid && digests_match(a.account.as_slice(), account.as_slice());
    proof {
        if a.account@ == account@ {
            assert(a.account@ =~= account@);
            assert(a.account =~= *account);
        }
    }
    same
}

impl ChainLedger {
    /// No pair of account and subnet is held twice.
    pub closed spec fn wf(&self) -> bool {
        distinct(self.entries@)
    }

    /// A chain that holds no registration.
    pub fn new() -> (ledger: ChainLedger)
        ensures
            ledger.wf(),
            ledger@ == Map::<(AccountId, u16), AxonCall>::empty(),
    {
        let ledger = ChainLedger { entries: Vec::new() };
        assert(ledger@ =~= Map::<(AccountId, u16), AxonCall>::empty());
        ledger
    }

    fn find(&self, account: &AccountId, netuid: u16) -> (place: Option<usize>)
        requires
            self.wf(),
        ensures
            place is Some <==> filed(self.entries@, (*account, netuid)),
            place matches Some(i) ==> i < self.entries@.len() && i == place_of(
                self.entries@,
                (*account, netuid),
            ),
    {
        let mut i: usize = 0;
        while i < self.entries.len()
            invariant
                self.wf(),
                i <= self.entries@.len(),
                forall|j: int| 0 <= j < i ==> key_of(#[trigger] self.entries@[j]) != (*account, netuid),
            decreases self.entries@.len() - i,
        {
            if same_key(&self.entries[i], account, netuid) {
                proof {
                    lemma_place_is_unique(self.entries@, i as int);
                }
                return Some(i);
            }
            i = i + 1;
        }
        None
    }

    /// The endpoint registered for `account` on subnet `netuid`, if any.
    pub fn lookup(&self, account: &AccountId, netuid: u16) -> (held: Option<AxonCall>)
        requires
            self.wf(),
        ensures
            held == if self@.contains_key((*account, netuid)) {
                Some(self@[(*account, netuid)])
            } else {
                None
            },
    {
        match self.find(account, netuid) {
            Some(i) => Some(self.entries[i]),
            None => None,
        }
    }

    /// Files a registration: it takes the place of what the chain held for
    /// the same account and subnet, and leaves every other entry as it was.
    pub fn register(&mut self, call: AxonCall)
        requires
            old(self).wf(),
        ensures
            final(self).wf(),
            final(self)@ == old(self)@.insert(key_of(call), call),
    {
        let ghost before = self.entries@;
        let ghost key = key_of(call);
        match self.find(&call.account, call.netuid) {
            Some(i) => {
                self.entries[i] = call;
                let ghost after = self.entries@;
                proof {
                    assert forall|a: int, b: int| 0 <= a < b < after.len() implies key_of(
                        #[trigger] after[a],
                    ) != key_of(#[trigger] after[b]) by {
                        assert(key_of(after[a]) == key_of(before[a]));
                        assert(key_of(after[b]) == key_of(before[b]));
                    }
                    assert forall|k: (AccountId, u16)| filed(after, k) == filed(before, k) by {
                        if filed(before, k) {
                            let j = place_of(before, k);
                            assert(key_of(after[j]) == k);
                        }
                        if filed(after, k) {
                            let j = place_of(after, k);
                            assert(key_of(before[j]) == k);
                        }
                    }
                    assert forall|k: (AccountId, u16)| filed(after, k) implies #[trigger] after[place_of(
                        after,
                        k,
                    )] == if k == key {
                        call
                    } else {
                        before[place_of(before, k)]
                    } by {
                        let j = place_of(after, k);
                        lemma_place_is_unique(after, j);
                        assert(key_of(before[j]) == k);
                        lemma_place_is_unique(before, j);
                        lemma_place_is_unique(after, i as int);
                    }
                    assert(self@ =~= old(self)@.insert(key, call));
                }
            },
            None => {
                self.entries.push(call);
                let ghost after = self.entries@;
                let ghost last = before.len() as int;
                proof {
                    assert forall|a: int, b: int| 0 <= a < b < after.len() implies key_of(
                        #[trigger] after[a],
                    ) != key_of(#[trigger] after[b]) by {
                        if b < last {
                            assert(after[a] == before[a] && after[b] == before[b]);
                        } else {
                            assert(after[a] == before[a]);
                            assert(!filed(before, key));
                        }
                    }
                    assert forall|k: (AccountId, u16)| filed(after, k) == (k == key || filed(
                        before,
                        k,
                    )) by {
                        if filed(before, k) {
                            let j = place_of(before, k);
                            assert(key_of(after[j]) == k);
                        }
                        if k == key {
                            assert(key_of(after[last]) == k);
                        }
                        if filed(after, k) {
                            let j = place_of(after, k);
                            if j < last {
                                assert(key_of(before[j]) == k);
                            }
                        }
                    }
                    assert forall|k: (AccountId, u16)| filed(after, k) implies #[trigger] after[place_of(
                        after,
                        k,
                    )] == if k == key {
                        call
                    } else {
                        before[place_of(before, k)]
                    } by {
                        let j = place_of(after, k);
                        lemma_place_is_unique(after, j);
                        if j < last {
                            assert(key_of(before[j]) == k);
                            lemma_place_is_unique(before, j);
                        }
                    }
                    assert(self@ =~= old(self)@.insert(key, call));
                }
            },
        }
    }
}

/// Registering again for the same account and subnet overwrites: the chain
/// then holds what it would hold had only the later registration been made.
pub proof fn lemma_registration_overwrites(
    held: Map<(AccountId, u16), AxonCall>,
    earlier: AxonCall,
    later: AxonCall,
)
    requires
        key_of(earlier) == key_of(later),
    ensures
        held.insert(key_of(earlier), earlier).insert(key_of(later), later) == held.insert(
            key_of(later),
            later,
        ),
{
    assert(held.insert(key_of(earlier), earlier).insert(key_of(later), later) =~= held.insert(
        key_of(later),
        later,
    ));
}

/// Registering the same endpoint twice changes nothing the second time.
pub proof fn lemma_registration_is_idempotent(held: Map<(AccountId, u16), AxonCall>, call: AxonCall)
    ensures
        held.insert(key_of(call), call).insert(key_of(call), call) == held.insert(
            key_of(call),
            call,
        ),
{
    lemma_registration_overwrites(held, call, call);
}

/// A registration leaves what is held for every other account or subnet as
/// it was.
pub proof fn lemma_registration_touches_one_entry(
    held: Map<(AccountId, u16), AxonCall>,
    call: AxonCall,
    other: (AccountId, u16),
)
    requires
        other != key_of(call),
    ensures
        held.insert(key_of(call), call).contains_key(other) == held.contains_key(other),
        held.contains_key(other) ==> held.insert(key_of(call), call)[other] == held[other],
{
}

} // verus!
