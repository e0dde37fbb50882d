use guac_actix::{
    new_addr, BalanceStore, ChannelManager, Counterparty, CounterpartyStore, Direction, Error,
    Uint256,
};

#[test]
fn empty_store_knows_nobody() {
    let mut storage: CounterpartyStore<u8> = CounterpartyStore::new();
    assert!(storage.get_all_counterparties().is_empty());
    assert_eq!(storage.get_channel(&new_addr(1)), Err(Error::UnknownCounterparty));
}

#[test]
fn init_data_keeps_the_order_of_registration() {
    let mut storage: CounterpartyStore<u8> = CounterpartyStore::new();
    for x in [5u64, 3, 9] {
        storage.init_data(
            Counterparty { address: new_addr(x), url: format!("node{}", x) },
            ChannelManager::Started(x as u8),
        );
    }
    let all = storage.get_all_counterparties();
    assert_eq!(all.len(), 3);
    assert_eq!(all[0], Counterparty { address: new_addr(5), url: "node5".to_string() });
    assert_eq!(all[1], Counterparty { address: new_addr(3), url: "node3".to_string() });
    assert_eq!(all[2], Counterparty { address: new_addr(9), url: "node9".to_string() });
    assert_eq!(storage.get_channel(&new_addr(3)), Ok(&mut ChannelManager::Started(3)));
}

#[test]
fn init_data_of_a_known_address_changes_nothing() {
    let mut storage: CounterpartyStore<u8> = CounterpartyStore::new();
    storage.init_data(
        Counterparty { address: new_addr(5), url: "first".to_string() },
        ChannelManager::Started(1),
    );
    storage.init_data(
        Counterparty { address: new_addr(5), url: "second".to_string() },
        ChannelManager::New,
    );
    let all = storage.get_all_counterparties();
    assert_eq!(all.len(), 1);
    assert_eq!(all[0].url, "first");
    assert_eq!(storage.get_channel(&new_addr(5)), Ok(&mut ChannelManager::Started(1)));
}

#[test]
fn channel_handle_writes_through_to_the_store() {
    let mut storage: CounterpartyStore<u8> = CounterpartyStore::new();
    for x in [1u64, 2] {
        storage.init_data(
            Counterparty { address: new_addr(x), url: String::new() },
            ChannelManager::New,
        );
    }
    *storage.get_channel(&new_addr(2)).unwrap() = ChannelManager::Started(8);
    assert_eq!(storage.get_channel(&new_addr(1)), Ok(&mut ChannelManager::New));
    assert_eq!(storage.get_channel(&new_addr(2)), Ok(&mut ChannelManager::Started(8)));
    assert_eq!(storage.get_all_counterparties().len(), 2);
}

#[test]
fn debit_and_credit_return_the_new_balance() {
    let mut balance = BalanceStore::new(100u64.into());
    assert_eq!(balance.mutate(&32u64.into(), Direction::Debit), Ok(68u64.into()));
    assert_eq!(balance.read(), 68u64.into());
    assert_eq!(balance.mutate(&5u64.into(), Direction::Credit), Ok(73u64.into()));
    assert_eq!(balance.read(), 73u64.into());
}

#[test]
fn debit_of_more_than_the_balance_is_refused_whole() {
    let mut balance = BalanceStore::new(100u64.into());
    assert_eq!(
        balance.mutate(&101u64.into(), Direction::Debit),
        Err(Error::InsufficientBalance)
    );
    assert_eq!(balance.read(), 100u64.into());
    assert_eq!(balance.mutate(&100u64.into(), Direction::Debit), Ok(Uint256::zero()));
    assert_eq!(
        balance.mutate(&1u64.into(), Direction::Debit),
        Err(Error::InsufficientBalance)
    );
}

#[test]
fn credit_past_256_bits_is_refused_whole() {
    let mut balance = BalanceStore::new(Uint256::max_value());
    assert_eq!(balance.mutate(&1u64.into(), Direction::Credit), Err(Error::BalanceOverflow));
    assert_eq!(balance.read(), Uint256::max_value());
    assert_eq!(balance.mutate(&Uint256::zero(), Direction::Credit), Ok(Uint256::max_value()));
}
