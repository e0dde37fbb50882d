use guac_actix::{
    new_addr, new_identity, Address, BalanceStore, ChannelManager, Counterparty,
    CounterpartyStore, Error, GetOwnBalance, LogLevel, MakePayment, PayCall, PaymentController,
    PaymentTx, Register, Tick, TickReport, Uint256, Withdraw, WithdrawCall,
};

fn address(text: &str) -> Address {
    let parsed: clarity::Address = text.parse().unwrap();
    Address::from_bytes(parsed.into())
}

fn payment(from: u64, to: u64, amount: u64) -> MakePayment {
    MakePayment(PaymentTx {
        from: new_identity(from),
        to: new_identity(to),
        amount: amount.into(),
    })
}

fn store_with(numbers: &[u64]) -> CounterpartyStore<[u8; 32]> {
    let controller = PaymentController::default();
    let mut storage = CounterpartyStore::new();
    for x in numbers {
        let counterparty = Counterparty { address: new_addr(*x), url: format!("127.0.0.1:{}", x) };
        controller.register(Register(counterparty), &mut storage).unwrap();
    }
    storage
}

#[test]
fn get_own_balance() {
    let controller = PaymentController::default();
    let balance = BalanceStore::new(Uint256::zero());
    let res = controller.get_own_balance(GetOwnBalance, &balance);
    println!("res {:?}", res);
    assert_eq!(res, Ok(Uint256::zero()));
}

#[test]
fn register() {
    let controller = PaymentController::default();
    let mut storage: CounterpartyStore<[u8; 32]> = CounterpartyStore::new();
    let res = controller.register(
        Register(Counterparty {
            address: address("0x0101010101010101010101010101010101010101"),
            url: "http://127.0.0.1:1234/".to_string(),
        }),
        &mut storage,
    );
    println!("res {:?}", res);
    assert_eq!(res, Ok(()));
    let all = storage.get_all_counterparties();
    assert_eq!(all.len(), 1);
    assert_eq!(all[0].address.to_bytes(), [1u8; 20]);
    assert_eq!(all[0].url, "http://127.0.0.1:1234/");
    let channel = storage.get_channel(&address("0x0101010101010101010101010101010101010101"));
    assert_eq!(channel, Ok(&mut ChannelManager::New));
}

#[test]
fn make_payment() {
    let controller = PaymentController::default();
    let mut storage: CounterpartyStore<[u8; 32]> = CounterpartyStore::new();

    // what the channel actor answers when a channel is opened
    let open_channel = || -> Result<[u8; 32], Error> {
        let channel_id: [u8; 32] = [42u8; 32];
        Ok(channel_id)
    };
    // what the network answers to a proposal: the channel manager with the
    // proposal accepted
    let send_proposal = |accepted: bool| -> Result<bool, Error> { Ok(accepted) };

    let res = controller.register(
        Register(Counterparty {
            address: address("0x4242424242424242424242424242424242424242"),
            url: "127.0.0.1:12345".to_string(),
        }),
        &mut storage,
    );
    println!("res {:?}", res);

    let tick1 = controller.tick(Tick, &storage);
    println!("tick1 result {:?}", tick1);
    for counterparty in tick1.unwrap() {
        let channel = storage.get_channel(&counterparty.address).unwrap();
        let reply = match channel {
            ChannelManager::New => send_proposal(true).and_then(|_| open_channel()).map(|id| {
                *channel = ChannelManager::Started(id);
            }),
            ChannelManager::Started(_) => Ok(()),
        };
        let report = controller.tick_completed(&counterparty, reply);
        assert_eq!(report.level, LogLevel::Info);
    }
    println!("------------------------------------- tick 2");
    let tick2 = controller.tick(Tick, &storage);
    println!("tick2 result {:?}", tick2);
    assert!(tick2.is_ok());
    for counterparty in tick2.unwrap() {
        let channel = storage.get_channel(&counterparty.address).unwrap();
        assert_eq!(*channel, ChannelManager::Started([42u8; 32]));
        let report = controller.tick_completed(&counterparty, Ok(()));
        assert_eq!(report.level, LogLevel::Info);
    }

    assert_eq!(storage.get_all_counterparties().len(), 1);
    println!("All counterparties {:?}", storage.get_all_counterparties());
}

#[test]
fn covered_payment_debits_the_amount() {
    let controller = PaymentController::default();
    let mut storage = store_with(&[2]);
    let mut balance = BalanceStore::new(100u64.into());
    let call = controller.make_payment(payment(1, 2, 32), &mut balance, &mut storage);
    assert_eq!(
        call,
        Ok(PayCall { counterparty: new_addr(2), amount: 32u64.into() })
    );
    assert_eq!(balance.read(), 68u64.into());
    assert_eq!(controller.payment_completed(Ok(())), Ok(()));
    assert_eq!(balance.read(), 68u64.into());
    assert_eq!(storage.get_all_counterparties().len(), 1);
}

#[test]
fn payment_of_the_whole_balance_leaves_zero() {
    let controller = PaymentController::default();
    let mut storage = store_with(&[2]);
    let mut balance = BalanceStore::new(100u64.into());
    let call = controller.make_payment(payment(1, 2, 100), &mut balance, &mut storage);
    assert!(call.is_ok());
    assert_eq!(balance.read(), Uint256::zero());
}

#[test]
fn payment_above_the_balance_changes_nothing() {
    let controller = PaymentController::default();
    let mut storage = store_with(&[2]);
    let mut balance = BalanceStore::new(100u64.into());
    let call = controller.make_payment(payment(1, 2, 101), &mut balance, &mut storage);
    assert_eq!(call, Err(Error::InsufficientBalance));
    assert_eq!(balance.read(), 100u64.into());
}

#[test]
fn payment_to_an_unknown_receiver_stays_debited() {
    let controller = PaymentController::default();
    let mut storage = store_with(&[2]);
    let mut balance = BalanceStore::new(100u64.into());
    let call = controller.make_payment(payment(1, 3, 32), &mut balance, &mut storage);
    assert_eq!(call, Err(Error::UnknownCounterparty));
    assert_eq!(balance.read(), 68u64.into());
}

#[test]
fn rejected_payment_stays_debited() {
    let controller = PaymentController::default();
    let mut storage = store_with(&[2]);
    let mut balance = BalanceStore::new(100u64.into());
    let call = controller.make_payment(payment(1, 2, 32), &mut balance, &mut storage);
    assert!(call.is_ok());
    let res = controller.payment_completed(Err(Error::ChannelRejected));
    assert_eq!(res, Err(Error::ChannelRejected));
    assert_eq!(balance.read(), 68u64.into());
}

#[test]
fn payment_errors_come_back_as_they_were() {
    let controller = PaymentController::default();
    for e in [
        Error::UnknownCounterparty,
        Error::ChannelRejected,
        Error::StoreUnavailable,
        Error::NetworkFailure,
    ] {
        assert_eq!(controller.payment_completed(Err(e)), Err(e));
    }
}

#[test]
fn registered_counterparty_is_listed_once() {
    let controller = PaymentController::default();
    let mut storage = store_with(&[1, 2]);
    let c = Counterparty { address: new_addr(7), url: "127.0.0.1:7".to_string() };
    assert_eq!(controller.register(Register(c.clone()), &mut storage), Ok(()));
    let all = storage.get_all_counterparties();
    assert_eq!(all.len(), 3);
    assert_eq!(all.iter().filter(|x| x.address == c.address).count(), 1);
    assert_eq!(all[2], c);
    assert_eq!(storage.get_channel(&c.address), Ok(&mut ChannelManager::New));
}

#[test]
fn registering_again_keeps_the_entry() {
    let controller = PaymentController::default();
    let mut storage = store_with(&[1, 2]);
    *storage.get_channel(&new_addr(1)).unwrap() = ChannelManager::Started([9u8; 32]);
    let again = Counterparty { address: new_addr(1), url: "elsewhere".to_string() };
    assert_eq!(controller.register(Register(again), &mut storage), Ok(()));
    let all = storage.get_all_counterparties();
    assert_eq!(all.len(), 2);
    assert_eq!(all[0].url, "127.0.0.1:1");
    assert_eq!(
        storage.get_channel(&new_addr(1)),
        Ok(&mut ChannelManager::Started([9u8; 32]))
    );
}

#[test]
fn tick_succeeds_when_every_reconciliation_fails() {
    let controller = PaymentController::default();
    let storage = store_with(&[1, 2, 3]);
    let res = controller.tick(Tick, &storage);
    assert!(res.is_ok());
    for counterparty in res.unwrap() {
        let report = controller.tick_completed(&counterparty, Err(Error::NetworkFailure));
        assert_eq!(
            report,
            TickReport {
                level: LogLevel::Error,
                counterparty: counterparty.address,
                failure: Some(Error::NetworkFailure),
            }
        );
    }
    assert!(controller.tick(Tick, &storage).is_ok());
}

#[test]
fn tick_without_counterparties_succeeds_with_nothing_to_do() {
    let controller = PaymentController::default();
    let storage: CounterpartyStore<[u8; 32]> = CounterpartyStore::new();
    assert_eq!(controller.tick(Tick, &storage), Ok(vec![]));
}

#[test]
fn tick_attempts_each_counterparty_once() {
    let controller = PaymentController::default();
    let storage = store_with(&[1, 2, 3, 4, 5]);
    let attempts = controller.tick(Tick, &storage).unwrap();
    assert_eq!(attempts.len(), 5);
    for (i, x) in [1u64, 2, 3, 4, 5].iter().enumerate() {
        assert_eq!(attempts[i].address, new_addr(*x));
        assert_eq!(attempts[i].url, format!("127.0.0.1:{}", x));
    }
    // the third fails; the others are reported as they ended
    for (i, counterparty) in attempts.iter().enumerate() {
        let reply = if i == 2 { Err(Error::ChannelRejected) } else { Ok(()) };
        let report = controller.tick_completed(counterparty, reply);
        assert_eq!(report.counterparty, counterparty.address);
        assert_eq!(report.level, if i == 2 { LogLevel::Error } else { LogLevel::Info });
        assert_eq!(report.failure, if i == 2 { Some(Error::ChannelRejected) } else { None });
    }
}

#[test]
fn withdraw_asks_the_channel_of_the_counterparty() {
    let controller = PaymentController::default();
    let mut storage = store_with(&[1, 2]);
    assert_eq!(
        controller.withdraw(Withdraw(new_addr(2)), &mut storage),
        Ok(WithdrawCall { counterparty: new_addr(2) })
    );
    assert_eq!(
        controller.withdraw(Withdraw(new_addr(3)), &mut storage),
        Err(Error::UnknownCounterparty)
    );
    assert_eq!(storage.get_all_counterparties().len(), 2);
}

#[test]
fn withdrawn_amount_is_added_to_the_balance() {
    let controller = PaymentController::default();
    let mut balance = BalanceStore::new(68u64.into());
    let res = controller.withdraw_completed(Ok(5u64.into()), &mut balance);
    assert_eq!(res, Ok(5u64.into()));
    assert_eq!(balance.read(), 73u64.into());
}

#[test]
fn withdrawal_of_zero_leaves_the_balance() {
    let controller = PaymentController::default();
    let mut balance = BalanceStore::new(68u64.into());
    let res = controller.withdraw_completed(Ok(Uint256::zero()), &mut balance);
    assert_eq!(res, Ok(Uint256::zero()));
    assert_eq!(balance.read(), 68u64.into());
}

#[test]
fn rejected_withdrawal_leaves_the_balance() {
    let controller = PaymentController::default();
    let mut balance = BalanceStore::new(68u64.into());
    let res = controller.withdraw_completed(Err(Error::ChannelRejected), &mut balance);
    assert_eq!(res, Err(Error::ChannelRejected));
    assert_eq!(balance.read(), 68u64.into());
}

#[test]
fn withdrawal_past_256_bits_is_refused() {
    let controller = PaymentController::default();
    let mut balance = BalanceStore::new(Uint256::max_value());
    let res = controller.withdraw_completed(Ok(1u64.into()), &mut balance);
    assert_eq!(res, Err(Error::BalanceOverflow));
    assert_eq!(balance.read(), Uint256::max_value());
}

#[test]
fn balance_is_the_sum_of_the_deltas_in_any_order() {
    let controller = PaymentController::default();
    let mut storage = store_with(&[2]);

    let mut first = BalanceStore::new(100u64.into());
    controller.make_payment(payment(1, 2, 30), &mut first, &mut storage).unwrap();
    controller.withdraw_completed(Ok(7u64.into()), &mut first).unwrap();
    controller.make_payment(payment(1, 2, 50), &mut first, &mut storage).unwrap();
    controller.withdraw_completed(Ok(11u64.into()), &mut first).unwrap();

    let mut second = BalanceStore::new(100u64.into());
    controller.withdraw_completed(Ok(11u64.into()), &mut second).unwrap();
    controller.make_payment(payment(1, 2, 50), &mut second, &mut storage).unwrap();
    controller.make_payment(payment(1, 2, 30), &mut second, &mut storage).unwrap();
    controller.withdraw_completed(Ok(7u64.into()), &mut second).unwrap();

    let expected: Uint256 = (100u64 - 30 + 7 - 50 + 11).into();
    assert_eq!(controller.get_own_balance(GetOwnBalance, &first), Ok(expected));
    assert_eq!(controller.get_own_balance(GetOwnBalance, &second), Ok(expected));
}

#[test]
fn cloned_commands_carry_the_same_values() {
    let pay = payment(1, 2, 32);
    let copy = pay.clone();
    assert_eq!(copy.0, pay.0);
    let register = Register(Counterparty { address: new_addr(4), url: "127.0.0.1:4".to_string() });
    assert_eq!(register.clone().0, register.0);
}
