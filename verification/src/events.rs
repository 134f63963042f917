//! Events emitted by contracts, and their per-contract extraction.
//!
//! A transaction's event log mixes events from any number of contracts.
//! Extraction filters the log to one instance's events, keeping emission
//! order, and decodes each one separately: a single event that fails to
//! decode is one failed entry, never a failure of the whole batch.

use vstd::prelude::*;

use crate::calls::AccountId;

verus! {

/// A raw event emitted by a contract.
#[derive(Debug)]
pub struct ContractEvent {
    /// The account id of the contract that emitted the event.
    pub account_id: AccountId,
    /// The encoded payload of the event.
    pub data: Vec<u8>,
}

/// All events contracts emitted in a single transaction, in emission
/// order.
#[derive(Debug)]
pub struct ContractEvents {
    pub events: Vec<ContractEvent>,
}

/// The events whose origin is the given account, in emission order.
pub open spec fn events_for(es: Seq<ContractEvent>, account: Seq<u8>) -> Seq<ContractEvent>
    decreases es.len(),
{
    if es.len() == 0 {
        Seq::empty()
    } else {
        let p = events_for(es.drop_last(), account);
        if es.last().account_id@ == account {
            p.push(es.last())
        } else {
            p
        }
    }
}

/// Law: extraction selects exactly the events whose origin matches, in
/// emission order: an empty log selects nothing, an event of the matching
/// contract is appended at the end, any other event leaves the selection
/// unchanged, and every selected event carries the matching origin.
pub proof fn lemma_events_for(es: Seq<ContractEvent>, e: ContractEvent, account: Seq<u8>)
    ensures
        events_for(Seq::empty(), account) == Seq::<ContractEvent>::empty(),
        e.account_id@ == account ==> events_for(es.push(e), account) == events_for(
            es,
            account,
        ).push(e),
        e.account_id@ != account ==> events_for(es.push(e), account) == events_for(es, account),
        forall|i: int|
            0 <= i < events_for(es, account).len() ==> (#[trigger] events_for(es, account)[i]).account_id@
                == account,
    decreases es.len(),
{
    assert(es.push(e).drop_last() =~= es);
    assert(es.push(e).last() == e);
    if es.len() > 0 {
        lemma_events_for(es.drop_last(), e, account);
        let p = events_for(es.drop_last(), account);
        if es.last().account_id@ == account {
            assert forall|i: int|
                0 <= i < events_for(es, account).len() implies (#[trigger] events_for(
                es,
                account,
            )[i]).account_id@ == account by {
                if i < p.len() {
                    assert(events_for(es, account)[i] == p[i]);
                } else {
                    assert(events_for(es, account)[i] == es.last());
                }
            }
        }
    }
}

impl ContractEvents {
    /// The raw events the given contract emitted, in emission order.
    pub fn for_contract(&self, contract: &AccountId) -> (r: Vec<&ContractEvent>)
        ensures
            r@.map_values(|e: &ContractEvent| *e) == events_for(self.events@, contract@),
    {
        let mut r: Vec<&ContractEvent> = Vec::new();
        let mut i: usize = 0;
        while i < self.events.len()
            invariant
                i <= self.events@.len(),
                r@.map_values(|e: &ContractEvent| *e) == events_for(
                    self.events@.take(i as int),
                    contract@,
                ),
            decreases self.events@.len() - i,
        {
            proof {
                assert(self.events@.take(i + 1 as int).drop_last() =~= self.events@.take(i as int));
                assert(self.events@.take(i + 1 as int).last() == self.events@[i as int]);
            }
            if self.events[i].account_id == *contract {
                r.push(&self.events[i]);
                proof {
                    assert(r@.map_values(|e: &ContractEvent| *e) =~= events_for(
                        self.events@.take(i as int),
                        contract@,
                    ).push(self.events@[i as int]));
                }
            }
            i = i + 1;
        }
        proof {
            assert(self.events@.take(self.events@.len() as int) =~= self.events@);
        }
        r
    }

    /// The given contract's events decoded with `decoder`, one result per
    /// event, in emission order: an event that fails to decode is one
    /// failed entry of an otherwise intact batch.
    pub fn decode_for_contract<E, D, F: Fn(&Vec<u8>) -> Result<E, D>>(
        &self,
        contract: &AccountId,
        decoder: F,
    ) -> (r: Vec<Result<E, D>>)
        requires
            forall|d: &Vec<u8>| #[trigger] decoder.requires((d,)),
        ensures
            r@.len() == events_for(self.events@, contract@).len(),
            forall|i: int|
                0 <= i < r@.len() ==> decoder.ensures(
                    (&events_for(self.events@, contract@)[i].data,),
                    #[trigger] r@[i],
                ),
    {
        let mut r: Vec<Result<E, D>> = Vec::new();
        let mut i: usize = 0;
        while i < self.events.len()
            invariant
                i <= self.events@.len(),
                forall|d: &Vec<u8>| #[trigger] decoder.requires((d,)),
                r@.len() == events_for(self.events@.take(i as int), contract@).len(),
                forall|j: int|
                    0 <= j < r@.len() ==> decoder.ensures(
                        (&events_for(self.events@.take(i as int), contract@)[j].data,),
                        #[trigger] r@[j],
                    ),
            decreases self.events@.len() - i,
        {
            proof {
                assert(self.events@.take(i + 1 as int).drop_last() =~= self.events@.take(i as int));
                assert(self.events@.take(i + 1 as int).last() == self.events@[i as int]);
            }
            let ghost before = events_for(self.events@.take(i as int), contract@);
            let ghost after = events_for(self.events@.take(i + 1 as int), contract@);
            if self.events[i].account_id == *contract {
                let decoded = decoder(&self.events[i].data);
                r.push(decoded);
                proof {
                    assert(after == before.push(self.events@[i as int]));
                    assert forall|j: int| 0 <= j < r@.len() implies decoder.ensures(
                        (&after[j].data,),
                        #[trigger] r@[j],
                    ) by {
                        if j < r@.len() - 1 {
                            assert(after[j] == before[j]);
                        } else {
                            assert(after[j] == self.events@[i as int]);
                        }
                    }
                }
            } else {
                proof {
                    assert(after == before);
                }
            }
            i = i + 1;
        }
        proof {
            assert(self.events@.take(self.events@.len() as int) =~= self.events@);
        }
        r
    }
}

} // verus!
