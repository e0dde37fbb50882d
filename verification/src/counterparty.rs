//! Counterparties and the store that keeps them with their channel
//! managers.

use crate::address::Address;
use crate::error::Error;
use vstd::prelude::*;

verus! {

/// A remote node with which a channel is, or will be, established.
#[derive(Debug, PartialEq, Eq)]
pub struct Counterparty {
    pub address: Address,
    pub url: String,
}

impl Clone for Counterparty {
    fn clone(&self) -> (r: Counterparty)
        ensures
            r == *self,
    {
        Counterparty { address: self.address, url: self.url.clone() }
    }
}

/// The channel manager of one counterparty, as the store keeps it: `New`
/// from registration on, then in whatever state `C` the channel's own state
/// machine has brought it to. That state machine runs outside this library.
#[derive(Debug, PartialEq, Eq)]
pub enum ChannelManager<C> {
    New,
    Started(C),
}

/// What the store holds of one counterparty.
#[derive(Debug, PartialEq, Eq)]
pub struct Entry<C> {
    pub counterparty: Counterparty,
    pub channel: ChannelManager<C>,
}

/// Whether no two entries share an address.
pub open spec fn addresses_distinct<C>(entries: Seq<Entry<C>>) -> bool {
    forall|i: int, j: int|
        0 <= i < j < entries.len() ==> entries[i].counterparty.address
            != entries[j].counterparty.address
}

/// Whether the entry at `i` is the one of `address`.
pub open spec fn entry_of<C>(entries: Seq<Entry<C>>, address: Address, i: int) -> bool {
    0 <= i < entries.len() && entries[i].counterparty.address == address
}

/// Whether a counterparty with `address` is among the entries.
pub open spec fn is_known<C>(entries: Seq<Entry<C>>, address: Address) -> bool {
    exists|i: int| entry_of(entries, address, i)
}

/// Where the entry of `address` stands, if it is known.
pub open spec fn index_of<C>(entries: Seq<Entry<C>>, address: Address) -> int {
    choose|i: int| entry_of(entries, address, i)
}

/// What `init_data` makes of the entries: a counterparty with a new address
/// is added at the end with the given channel manager, and one whose
/// address is known already changes nothing.
pub open spec fn initialized<C>(
    entries: Seq<Entry<C>>,
    counterparty: Counterparty,
    channel: ChannelManager<C>,
) -> Seq<Entry<C>> {
    if is_known(entries, counterparty.address) {
        entries
    } else {
        entries.push(Entry { counterparty, channel })
    }
}

/// The counterparties of the entries, in their order.
pub open spec fn counterparties_of<C>(entries: Seq<Entry<C>>) -> Seq<Counterparty> {
    Seq::new(entries.len(), |i: int| entries[i].counterparty)
}

/// The store of counterparties: one entry for each registered address, in
/// the order of registration.
pub struct CounterpartyStore<C> {
    entries: Vec<Entry<C>>,
}

impl<C> View for CounterpartyStore<C> {
    type V = Seq<Entry<C>>;

    closed spec fn view(&self) -> Seq<Entry<C>> {
        self.entries@
    }
}

impl<C> CounterpartyStore<C> {
    /// The invariant of the store: no address is registered twice.
    pub open spec fn wf(&self) -> bool {
        addresses_distinct(self@)
    }

    /// The store without any counterparty.
    pub fn new() -> (r: CounterpartyStore<C>)
        ensures
            r.wf(),
            r@ == Seq::<Entry<C>>::empty(),
    {
        CounterpartyStore { entries: Vec::new() }
    }

    /// The place of the entry of `address`.
    fn find(&self, address: &Address) -> (r: Option<usize>)
        ensures
            match r {
                Some(i) => entry_of(self@, *address, i as int),
                None => !is_known(self@, *address),
            },
    {
        let mut i: usize = 0;
        while i < self.entries.len()
            invariant
                i <= self.entries.len(),
                forall|j: int| 0 <= j < i ==> !entry_of(self@, *address, j),
            decreases self.entries.len() - i,
        {
            if self.entries[i].counterparty.address == *address {
                return Some(i);
            }
            i = i + 1;
        }
        None
    }

    /// Registers `counterparty` with `channel` as its channel manager. An
    /// address that is registered already keeps its entry as it is.
    pub fn init_data(&mut self, counterparty: Counterparty, channel: ChannelManager<C>)
        requires
            old(self).wf(),
        ensures
            final(self).wf(),
            final(self)@ == initialized(old(self)@, counterparty, channel),
    {
        if self.find(&counterparty.address).is_none() {
            self.entries.push(Entry { counterparty, channel });
            assert forall|i: int, j: int| 0 <= i < j < self@.len() implies self@[i].counterparty.address
                != self@[j].counterparty.address by {
                if j == old(self)@.len() {
                    assert(!entry_of(old(self)@, counterparty.address, i));
                }
            }
        }
    }

    /// The channel manager of the counterparty with `address`, held
    /// exclusively: what the holder leaves in it is what the store keeps.
    pub fn get_channel(&mut self, address: &Address) -> (r: Result<&mut ChannelManager<C>, Error>)
        requires
            old(self).wf(),
        ensures
            final(self).wf(),
            match r {
                Ok(channel) => {
                    let i = index_of(old(self)@, *address);
                    &&& is_known(old(self)@, *address)
                    &&& *channel == old(self)@[i].channel
                    &&& final(self)@ == old(self)@.update(
                        i,
                        Entry { counterparty: old(self)@[i].counterparty, channel: *final(channel) },
                    )
                },
                Err(e) => {
                    &&& !is_known(old(self)@, *address)
                    &&& e == Error::UnknownCounterparty
                    &&& final(self)@ == old(self)@
                },
            },
    {
        match self.find(address) {
            Some(i) => Ok(&mut self.entries[i].channel),
            None => Err(Error::UnknownCounterparty),
        }
    }

    /// Every registered counterparty, once, in the order of registration.
    pub fn get_all_counterparties(&self) -> (r: Vec<Counterparty>)
        ensures
            r@ == counterparties_of(self@),
    {
        let mut all: Vec<Counterparty> = Vec::new();
        let mut i: usize = 0;
        while i < self.entries.len()
            invariant
                i <= self.entries.len(),
                all@ == counterparties_of(self@.take(i as int)),
            decreases self.entries.len() - i,
        {
            all.push(self.entries[i].counterparty.clone());
            assert(all@ =~= counterparties_of(self@.take(i + 1)));
            i = i + 1;
        }
        assert(self@.take(i as int) =~= self@);
        all
    }
}

/// Registering a counterparty whose address is not yet known puts it among
/// the registered counterparties exactly once: it stands at the end, no
/// other entry has its address, and the entries before it are as they
/// were.
pub proof fn lemma_registered_exactly_once<C>(
    entries: Seq<Entry<C>>,
    counterparty: Counterparty,
    channel: ChannelManager<C>,
)
    requires
        addresses_distinct(entries),
        !is_known(entries, counterparty.address),
    ensures
        ({
            let after = initialized(entries, counterparty, channel);
            let all = counterparties_of(after);
            &&& addresses_distinct(after)
            &&& is_known(after, counterparty.address)
            &&& all.len() == entries.len() + 1
            &&& all[entries.len() as int] == counterparty
            &&& after[entries.len() as int].channel == channel
            &&& forall|i: int|
                0 <= i < all.len() ==> (all[i].address == counterparty.address <==> i
                    == entries.len())
            &&& forall|i: int| 0 <= i < entries.len() ==> after[i] == entries[i]
        }),
{
    let after = initialized(entries, counterparty, channel);
    assert(entry_of(after, counterparty.address, entries.len() as int));
    assert forall|i: int| 0 <= i < entries.len() implies after[i].counterparty.address
        != counterparty.address by {
        assert(!entry_of(entries, counterparty.address, i));
    }
}

/// Registering a counterparty whose address is known already changes
/// nothing.
pub proof fn lemma_registered_again<C>(
    entries: Seq<Entry<C>>,
    counterparty: Counterparty,
    channel: ChannelManager<C>,
)
    requires
        is_known(entries, counterparty.address),
    ensures
        initialized(entries, counterparty, channel) == entries,
{
}

/// The list of all counterparties of a store names each registered address
/// once: it is as long as the store, no two of its counterparties share an
/// address, and an address is in it if and only if it is registered.
pub proof fn lemma_each_counterparty_once<C>(entries: Seq<Entry<C>>)
    requires
        addresses_distinct(entries),
    ensures
        ({
            let all = counterparties_of(entries);
            &&& all.len() == entries.len()
            &&& forall|i: int, j: int| 0 <= i < j < all.len() ==> all[i].address != all[j].address
            &&& forall|address: Address|
                is_known(entries, address) <==> exists|i: int|
                    0 <= i < all.len() && #[trigger] all[i].address == address
        }),
{
    let all = counterparties_of(entries);
    assert forall|address: Address| is_known(entries, address) <==> exists|i: int|
        0 <= i < all.len() && #[trigger] all[i].address == address by {
        if is_known(entries, address) {
            let i = index_of(entries, address);
            assert(entry_of(entries, address, i));
            assert(all[i].address == address);
        }
        if exists|i: int| 0 <= i < all.len() && #[trigger] all[i].address == address {
            let i = choose|i: int| 0 <= i < all.len() && #[trigger] all[i].address == address;
            assert(entry_of(entries, address, i));
        }
    }
}

} // verus!
