use cw20_clawback::balance::{Balance, Coin, Cw20Coin};
use cw20_clawback::contract::{handle, init, query_details, query_list};
use cw20_clawback::error::ContractError;
use cw20_clawback::msg::{
    CosmosMsg, CreateMsg, Cw20ReceiveMsg, DetailsResponse, Env, HandleMsg, InitMsg, MessageInfo,
    ReceiveMsg, attr,
};
use cw20_clawback::state::Registry;

const MOCK_CONTRACT_ADDR: &str = "cosmos2contract";

fn s(x: &str) -> String {
    x.to_string()
}

fn coin(amount: u128, denom: &str) -> Coin {
    Coin { denom: denom.to_string(), amount }
}

fn coins(amount: u128, denom: &str) -> Vec<Coin> {
    vec![coin(amount, denom)]
}

fn mock_env(time: u64) -> Env {
    Env { block_time: time, contract_address: s(MOCK_CONTRACT_ADDR) }
}

fn mock_info(sender: &str, funds: Vec<Coin>) -> MessageInfo {
    MessageInfo { sender: s(sender), sent_funds: funds }
}

fn create_msg(id: &str, backup: &str, holder: &str, period: u64) -> CreateMsg {
    CreateMsg {
        id: s(id),
        backup: s(backup),
        holder: s(holder),
        clawback_period: period,
        cw20_whitelist: None,
    }
}

#[test]
fn happy_path_native() {
    let mut registry = Registry::new();

    // init an empty contract
    let mock_clawback_period = 1;
    let mock_time = 1571920875;
    let init_env = mock_env(mock_time);
    let res = init(InitMsg {});
    assert_eq!(0, res.messages.len());

    // create a clawback
    let create = create_msg("foobar", "backup", "holder", mock_clawback_period);
    let balance = coins(100, "tokens");
    let info = mock_info("source", balance.clone());
    let res = handle(&mut registry, &init_env, info, HandleMsg::Create(create)).unwrap();
    assert_eq!(0, res.messages.len());
    assert_eq!(attr("action", "create"), res.attributes[0]);

    // ensure the details are what we expect
    let details = query_details(&registry, s("foobar")).unwrap();
    assert_eq!(
        details,
        DetailsResponse {
            id: s("foobar"),
            backup: s("backup"),
            holder: s("holder"),
            clawback_period: mock_clawback_period,
            end_time: mock_time + mock_clawback_period,
            native_balance: balance.clone(),
            cw20_balance: vec![],
            cw20_whitelist: vec![],
        }
    );

    // withdraw it
    let info = mock_info("holder", vec![]);
    let new_env = mock_env(mock_time + mock_clawback_period);
    let res = handle(&mut registry, &new_env, info, HandleMsg::Withdraw { id: s("foobar") })
        .unwrap();
    assert_eq!(1, res.messages.len());
    assert_eq!(attr("action", "withdraw"), res.attributes[0]);
    assert_eq!(
        res.messages[0],
        CosmosMsg::BankSend {
            from_address: s(MOCK_CONTRACT_ADDR),
            to_address: s("holder"),
            amount: balance,
        }
    );

    // second attempt fails (not found)
    let info = mock_info("holder", vec![]);
    let res = handle(&mut registry, &new_env, info, HandleMsg::Withdraw { id: s("foobar") });
    match res.unwrap_err() {
        ContractError::NotFound => {}
        e => panic!("Expected NotFound, got {:?}", e),
    }
}

#[test]
fn happy_path_cw20() {
    let mut registry = Registry::new();
    let mock_time = 1571920875;
    let init_env = mock_env(mock_time);
    let res = init(InitMsg {});
    assert_eq!(0, res.messages.len());

    // create a clawback via a wrapped token deposit
    let mock_clawback_period = 1;
    let create = CreateMsg {
        id: s("foobar"),
        holder: s("holder"),
        backup: s("backup"),
        clawback_period: mock_clawback_period,
        cw20_whitelist: Some(vec![s("other-token")]),
    };
    let receive = Cw20ReceiveMsg {
        sender: s("source"),
        amount: 100,
        msg: Some(ReceiveMsg::Create(create)),
    };
    let info = mock_info("my-cw20-token", vec![]);
    let res = handle(&mut registry, &init_env, info, HandleMsg::Receive(receive)).unwrap();
    assert_eq!(0, res.messages.len());
    assert_eq!(attr("action", "create"), res.attributes[0]);

    // ensure the whitelist is what we expect
    let details = query_details(&registry, s("foobar")).unwrap();
    assert_eq!(
        details,
        DetailsResponse {
            id: s("foobar"),
            holder: s("holder"),
            backup: s("backup"),
            end_time: mock_time + mock_clawback_period,
            clawback_period: mock_clawback_period,
            native_balance: vec![],
            cw20_balance: vec![Cw20Coin { address: s("my-cw20-token"), amount: 100 }],
            cw20_whitelist: vec![s("other-token"), s("my-cw20-token")],
        }
    );

    // withdraw it
    let info = mock_info("holder", vec![]);
    let new_env = mock_env(mock_time + mock_clawback_period);
    let res = handle(&mut registry, &new_env, info, HandleMsg::Withdraw { id: s("foobar") })
        .unwrap();
    assert_eq!(1, res.messages.len());
    assert_eq!(attr("action", "withdraw"), res.attributes[0]);
    assert_eq!(
        res.messages[0],
        CosmosMsg::Cw20Transfer {
            contract_addr: s("my-cw20-token"),
            recipient: s("holder"),
            amount: 100,
        }
    );

    // second attempt fails (not found)
    let info = mock_info("holder", vec![]);
    let res = handle(&mut registry, &new_env, info, HandleMsg::Withdraw { id: s("foobar") });
    match res.unwrap_err() {
        ContractError::NotFound => {}
        e => panic!("Expected NotFound, got {:?}", e),
    }
}

#[test]
fn transfer_native() {
    let mut registry = Registry::new();

    let mock_clawback_period = 2;
    let mock_time = 1571920875;
    let init_env = mock_env(mock_time);
    let res = init(InitMsg {});
    assert_eq!(0, res.messages.len());
    let balance = coins(100, "tokens");

    // create four clawbacks
    for idc in ["foo", "bar", "wrong-per", "wrong-back"].iter() {
        let backup = if *idc == "wrong-back" { "backup2" } else { "backup" };
        let period = if *idc == "wrong-per" {
            mock_clawback_period - 1
        } else {
            mock_clawback_period
        };
        let create = create_msg(idc, backup, idc, period);
        let info = mock_info("source", balance.clone());
        let res = handle(&mut registry, &init_env, info, HandleMsg::Create(create)).unwrap();
        assert_eq!(0, res.messages.len());
        assert_eq!(attr("action", "create"), res.attributes[0]);

        let details = query_details(&registry, s(idc)).unwrap();
        assert_eq!(
            details,
            DetailsResponse {
                id: s(idc),
                backup: s(backup),
                holder: s(idc),
                clawback_period: period,
                end_time: mock_time + period,
                native_balance: balance.clone(),
                cw20_balance: vec![],
                cw20_whitelist: vec![],
            }
        );
    }

    // transfer by foo's holder, within the ring, before expiry
    let info = mock_info("foo", vec![]);
    let new_env = mock_env(mock_time + 1);
    let res = handle(
        &mut registry,
        &new_env,
        info,
        HandleMsg::ClawbackTransfer {
            from_id: s("foo"),
            to_id: s("bar"),
            amount: Balance::Native(coins(1, "tokens")),
        },
    )
    .unwrap();
    assert_eq!(0, res.messages.len());
    assert_eq!(attr("action", "transfer"), res.attributes[0]);

    // a transfer changes neither escrow's end_time
    let details = query_details(&registry, s("foo")).unwrap();
    assert_eq!(
        details,
        DetailsResponse {
            id: s("foo"),
            backup: s("backup"),
            holder: s("foo"),
            clawback_period: mock_clawback_period,
            end_time: mock_time + mock_clawback_period,
            native_balance: coins(99, "tokens"),
            cw20_balance: vec![],
            cw20_whitelist: vec![],
        }
    );
    let details = query_details(&registry, s("bar")).unwrap();
    assert_eq!(
        details,
        DetailsResponse {
            id: s("bar"),
            backup: s("backup"),
            holder: s("bar"),
            clawback_period: mock_clawback_period,
            end_time: mock_time + mock_clawback_period,
            native_balance: coins(101, "tokens"),
            cw20_balance: vec![],
            cw20_whitelist: vec![],
        }
    );

    // claw back by the shared backup
    let info = mock_info("backup", vec![]);
    let res = handle(
        &mut registry,
        &new_env,
        info,
        HandleMsg::ClawbackTransfer {
            from_id: s("bar"),
            to_id: s("foo"),
            amount: Balance::Native(coins(1, "tokens")),
        },
    )
    .unwrap();
    assert_eq!(0, res.messages.len());
    assert_eq!(attr("action", "transfer"), res.attributes[0]);

    let details = query_details(&registry, s("foo")).unwrap();
    assert_eq!(
        details,
        DetailsResponse {
            id: s("foo"),
            backup: s("backup"),
            holder: s("foo"),
            clawback_period: mock_clawback_period,
            end_time: mock_time + mock_clawback_period,
            native_balance: balance.clone(),
            cw20_balance: vec![],
            cw20_whitelist: vec![],
        }
    );
    let details = query_details(&registry, s("bar")).unwrap();
    assert_eq!(
        details,
        DetailsResponse {
            id: s("bar"),
            backup: s("backup"),
            holder: s("bar"),
            clawback_period: mock_clawback_period,
            end_time: mock_time + mock_clawback_period,
            native_balance: balance.clone(),
            cw20_balance: vec![],
            cw20_whitelist: vec![],
        }
    );

    // failures: a differing period breaks the ring
    let info = mock_info("foo", vec![]);
    let res = handle(
        &mut registry,
        &new_env,
        info,
        HandleMsg::ClawbackTransfer {
            from_id: s("foo"),
            to_id: s("wrong-per"),
            amount: Balance::Native(coins(1, "tokens")),
        },
    );
    match res.unwrap_err() {
        ContractError::ContractMismatch => {}
        e => panic!("Expected ContractMismatch, got {:?}", e),
    }

    // a differing backup breaks the ring
    let info = mock_info("foo", vec![]);
    let res = handle(
        &mut registry,
        &new_env,
        info,
        HandleMsg::ClawbackTransfer {
            from_id: s("foo"),
            to_id: s("wrong-back"),
            amount: Balance::Native(coins(1, "tokens")),
        },
    );
    match res.unwrap_err() {
        ContractError::ContractMismatch => {}
        e => panic!("Expected ContractMismatch, got {:?}", e),
    }

    // the ring check also stops the backup itself
    let info = mock_info("backup", vec![]);
    let res = handle(
        &mut registry,
        &new_env,
        info,
        HandleMsg::ClawbackTransfer {
            from_id: s("foo"),
            to_id: s("wrong-per"),
            amount: Balance::Native(coins(1, "tokens")),
        },
    );
    match res.unwrap_err() {
        ContractError::ContractMismatch => {}
        e => panic!("Expected ContractMismatch, got {:?}", e),
    }
}

#[test]
fn transfer_cw20() {
    let mut registry = Registry::new();
    let mock_time = 1571920875;
    let init_env = mock_env(mock_time);

    // two escrows in one ring, each funded via a wrapped token deposit
    for idc in ["foo", "bar"].iter() {
        let create = CreateMsg {
            id: s(idc),
            backup: s("backup"),
            holder: s(idc),
            clawback_period: 2,
            cw20_whitelist: None,
        };
        let receive = Cw20ReceiveMsg {
            sender: s("source"),
            amount: 100,
            msg: Some(ReceiveMsg::Create(create)),
        };
        let info = mock_info("token-a", vec![]);
        handle(&mut registry, &init_env, info, HandleMsg::Receive(receive)).unwrap();
    }

    // lateral transfer by foo's holder before expiry
    let info = mock_info("foo", vec![]);
    let new_env = mock_env(mock_time + 1);
    let res = handle(
        &mut registry,
        &new_env,
        info,
        HandleMsg::ClawbackTransfer {
            from_id: s("foo"),
            to_id: s("bar"),
            amount: Balance::Cw20(Cw20Coin { address: s("token-a"), amount: 40 }),
        },
    )
    .unwrap();
    assert_eq!(0, res.messages.len());
    assert_eq!(attr("action", "transfer"), res.attributes[0]);

    let details = query_details(&registry, s("foo")).unwrap();
    assert_eq!(details.cw20_balance, vec![Cw20Coin { address: s("token-a"), amount: 60 }]);
    let details = query_details(&registry, s("bar")).unwrap();
    assert_eq!(details.cw20_balance, vec![Cw20Coin { address: s("token-a"), amount: 140 }]);

    // over-drawing fails and leaves both balances unchanged
    let info = mock_info("backup", vec![]);
    let res = handle(
        &mut registry,
        &new_env,
        info,
        HandleMsg::ClawbackTransfer {
            from_id: s("foo"),
            to_id: s("bar"),
            amount: Balance::Cw20(Cw20Coin { address: s("token-a"), amount: 1000 }),
        },
    );
    match res.unwrap_err() {
        ContractError::InsufficientFunds => {}
        e => panic!("Expected InsufficientFunds, got {:?}", e),
    }
    let details = query_details(&registry, s("foo")).unwrap();
    assert_eq!(details.cw20_balance, vec![Cw20Coin { address: s("token-a"), amount: 60 }]);
    let details = query_details(&registry, s("bar")).unwrap();
    assert_eq!(details.cw20_balance, vec![Cw20Coin { address: s("token-a"), amount: 140 }]);
}

#[test]
fn refresh() {
    let mut registry = Registry::new();
    let mock_time = 1571920875;
    let init_env = mock_env(mock_time);

    let create = create_msg("foobar", "backup", "holder", 5);
    let info = mock_info("source", coins(100, "tokens"));
    handle(&mut registry, &init_env, info, HandleMsg::Create(create)).unwrap();

    // a stranger may not refresh
    let info = mock_info("anyone", vec![]);
    let env = mock_env(mock_time + 3);
    let res = handle(&mut registry, &env, info, HandleMsg::Refresh { id: s("foobar") });
    match res.unwrap_err() {
        ContractError::Unauthorized => {}
        e => panic!("Expected Unauthorized, got {:?}", e),
    }

    // the holder extends the end time by one more period
    let info = mock_info("holder", vec![]);
    let res = handle(&mut registry, &env, info, HandleMsg::Refresh { id: s("foobar") }).unwrap();
    assert_eq!(attr("action", "refresh"), res.attributes[0]);
    let details = query_details(&registry, s("foobar")).unwrap();
    assert_eq!(details.end_time, mock_time + 10);

    // the backup may refresh too
    let info = mock_info("backup", vec![]);
    let res = handle(&mut registry, &env, info, HandleMsg::Refresh { id: s("foobar") }).unwrap();
    assert_eq!(attr("action", "refresh"), res.attributes[0]);
    let details = query_details(&registry, s("foobar")).unwrap();
    assert_eq!(details.end_time, mock_time + 15);

    // once expired, the window cannot be revived
    let late_env = mock_env(mock_time + 16);
    let info = mock_info("holder", vec![]);
    let res = handle(&mut registry, &late_env, info, HandleMsg::Refresh { id: s("foobar") });
    match res.unwrap_err() {
        ContractError::Expired => {}
        e => panic!("Expected Expired, got {:?}", e),
    }
}

#[test]
fn burn() {
    let mut registry = Registry::new();
    let mock_time = 1571920875;
    let init_env = mock_env(mock_time);

    let create = create_msg("foobar", "backup", "holder", 5);
    let info = mock_info("source", coins(100, "tokens"));
    handle(&mut registry, &init_env, info, HandleMsg::Create(create)).unwrap();

    // only the backup may burn
    let info = mock_info("holder", vec![]);
    let env = mock_env(mock_time + 1);
    let res = handle(&mut registry, &env, info, HandleMsg::Burn { id: s("foobar") });
    match res.unwrap_err() {
        ContractError::Unauthorized => {}
        e => panic!("Expected Unauthorized, got {:?}", e),
    }

    // the backup burns before expiry: no outbound transfer, record gone
    let info = mock_info("backup", vec![]);
    let res = handle(&mut registry, &env, info, HandleMsg::Burn { id: s("foobar") }).unwrap();
    assert_eq!(0, res.messages.len());
    assert_eq!(attr("action", "burn"), res.attributes[0]);
    assert!(query_details(&registry, s("foobar")).is_err());

    // after expiry the clawback authority has lapsed
    let create = create_msg("second", "backup", "holder", 5);
    let info = mock_info("source", coins(100, "tokens"));
    handle(&mut registry, &init_env, info, HandleMsg::Create(create)).unwrap();
    let late_env = mock_env(mock_time + 6);
    let info = mock_info("backup", vec![]);
    let res = handle(&mut registry, &late_env, info, HandleMsg::Burn { id: s("second") });
    match res.unwrap_err() {
        ContractError::Expired => {}
        e => panic!("Expected Expired, got {:?}", e),
    }
}

#[test]
fn top_up_mixed_tokens() {
    let mut registry = Registry::new();
    let mock_time = 1571920875;
    let init_env = mock_env(mock_time);
    let res = init(InitMsg {});
    assert_eq!(0, res.messages.len());

    // only accept these tokens
    let whitelist = vec![s("bar_token"), s("foo_token")];

    // create a clawback with 2 native tokens
    let mock_clawback_period = 1;
    let create = CreateMsg {
        id: s("foobar"),
        backup: s("backup"),
        holder: s("holder"),
        clawback_period: mock_clawback_period,
        cw20_whitelist: Some(whitelist),
    };
    let balance = vec![coin(100, "fee"), coin(200, "stake")];
    let info = mock_info("source", balance);
    let res = handle(&mut registry, &init_env, info, HandleMsg::Create(create)).unwrap();
    assert_eq!(0, res.messages.len());
    assert_eq!(attr("action", "create"), res.attributes[0]);

    // top it up with 2 more native tokens
    let extra_native = vec![coin(250, "random"), coin(300, "stake")];
    let info = mock_info("source", extra_native);
    let res = handle(&mut registry, &init_env, info, HandleMsg::TopUp { id: s("foobar") })
        .unwrap();
    assert_eq!(0, res.messages.len());
    assert_eq!(attr("action", "top_up"), res.attributes[0]);

    // top up with one foreign token
    let top_up = HandleMsg::Receive(Cw20ReceiveMsg {
        sender: s("random"),
        amount: 7890,
        msg: Some(ReceiveMsg::TopUp { id: s("foobar") }),
    });
    let info = mock_info("bar_token", vec![]);
    let res = handle(&mut registry, &init_env, info, top_up).unwrap();
    assert_eq!(0, res.messages.len());
    assert_eq!(attr("action", "top_up"), res.attributes[0]);

    // top up with a foreign token not on the whitelist
    let top_up = HandleMsg::Receive(Cw20ReceiveMsg {
        sender: s("random"),
        amount: 7890,
        msg: Some(ReceiveMsg::TopUp { id: s("foobar") }),
    });
    let info = mock_info("baz_token", vec![]);
    let res = handle(&mut registry, &init_env, info, top_up);
    match res.unwrap_err() {
        ContractError::NotInWhitelist => {}
        e => panic!("Unexpected error: {:?}", e),
    }

    // top up with the second foreign token
    let top_up = HandleMsg::Receive(Cw20ReceiveMsg {
        sender: s("random"),
        amount: 888,
        msg: Some(ReceiveMsg::TopUp { id: s("foobar") }),
    });
    let info = mock_info("foo_token", vec![]);
    let res = handle(&mut registry, &init_env, info, top_up).unwrap();
    assert_eq!(0, res.messages.len());
    assert_eq!(attr("action", "top_up"), res.attributes[0]);

    // withdraw it
    let new_env = mock_env(mock_time + mock_clawback_period);
    let info = mock_info("holder", vec![]);
    let res = handle(&mut registry, &new_env, info, HandleMsg::Withdraw { id: s("foobar") })
        .unwrap();
    assert_eq!(attr("action", "withdraw"), res.attributes[0]);
    assert_eq!(3, res.messages.len());

    // first message releases all native coins
    assert_eq!(
        res.messages[0],
        CosmosMsg::BankSend {
            from_address: s(MOCK_CONTRACT_ADDR),
            to_address: s("holder"),
            amount: vec![coin(100, "fee"), coin(500, "stake"), coin(250, "random")],
        }
    );

    // second one releases the bar token
    assert_eq!(
        res.messages[1],
        CosmosMsg::Cw20Transfer {
            contract_addr: s("bar_token"),
            recipient: s("holder"),
            amount: 7890,
        }
    );

    // third one releases the foo token
    assert_eq!(
        res.messages[2],
        CosmosMsg::Cw20Transfer {
            contract_addr: s("foo_token"),
            recipient: s("holder"),
            amount: 888,
        }
    );
}

#[test]
fn create_rejects_empty_funding() {
    let mut registry = Registry::new();
    let env = mock_env(1000);
    let create = create_msg("foobar", "backup", "holder", 1);
    let info = mock_info("source", vec![]);
    let res = handle(&mut registry, &env, info, HandleMsg::Create(create));
    match res.unwrap_err() {
        ContractError::EmptyBalance => {}
        e => panic!("Expected EmptyBalance, got {:?}", e),
    }
    // a batch of zero-quantity coins is empty too
    let create = create_msg("foobar", "backup", "holder", 1);
    let info = mock_info("source", coins(0, "tokens"));
    let res = handle(&mut registry, &env, info, HandleMsg::Create(create));
    match res.unwrap_err() {
        ContractError::EmptyBalance => {}
        e => panic!("Expected EmptyBalance, got {:?}", e),
    }
}

#[test]
fn create_duplicate_id_leaves_original() {
    let mut registry = Registry::new();
    let env = mock_env(1000);
    let create = create_msg("foobar", "backup", "holder", 1);
    let info = mock_info("source", coins(100, "tokens"));
    handle(&mut registry, &env, info, HandleMsg::Create(create)).unwrap();

    let create = create_msg("foobar", "backup2", "holder2", 7);
    let info = mock_info("source", coins(5, "other"));
    let res = handle(&mut registry, &env, info, HandleMsg::Create(create));
    match res.unwrap_err() {
        ContractError::AlreadyInUse => {}
        e => panic!("Expected AlreadyInUse, got {:?}", e),
    }
    let details = query_details(&registry, s("foobar")).unwrap();
    assert_eq!(details.backup, s("backup"));
    assert_eq!(details.native_balance, coins(100, "tokens"));
}

#[test]
fn withdraw_time_gate_and_authorization() {
    let mut registry = Registry::new();
    let mock_time = 1571920875;
    let env = mock_env(mock_time);
    let create = create_msg("foobar", "backup", "holder", 1);
    let info = mock_info("source", coins(100, "tokens"));
    handle(&mut registry, &env, info, HandleMsg::Create(create)).unwrap();

    // before end_time the holder cannot withdraw
    let info = mock_info("holder", vec![]);
    let res = handle(&mut registry, &env, info, HandleMsg::Withdraw { id: s("foobar") });
    match res.unwrap_err() {
        ContractError::NotExpired => {}
        e => panic!("Expected NotExpired, got {:?}", e),
    }

    // nobody but the holder may withdraw, expired or not
    let late_env = mock_env(mock_time + 100);
    let info = mock_info("backup", vec![]);
    let res = handle(&mut registry, &late_env, info, HandleMsg::Withdraw { id: s("foobar") });
    match res.unwrap_err() {
        ContractError::Unauthorized => {}
        e => panic!("Expected Unauthorized, got {:?}", e),
    }

    // at end_time the holder's withdrawal succeeds
    let at_env = mock_env(mock_time + 1);
    let info = mock_info("holder", vec![]);
    let res = handle(&mut registry, &at_env, info, HandleMsg::Withdraw { id: s("foobar") })
        .unwrap();
    assert_eq!(1, res.messages.len());
}

#[test]
fn receive_without_payload_is_rejected() {
    let mut registry = Registry::new();
    let env = mock_env(1000);
    let receive = Cw20ReceiveMsg { sender: s("source"), amount: 100, msg: None };
    let info = mock_info("my-cw20-token", vec![]);
    let res = handle(&mut registry, &env, info, HandleMsg::Receive(receive));
    match res.unwrap_err() {
        ContractError::NoData => {}
        e => panic!("Expected NoData, got {:?}", e),
    }
}

#[test]
fn error_descriptions() {
    assert_eq!(ContractError::AlreadyInUse.describe(), "clawback id already in use");
    assert_eq!(ContractError::NoData.describe(), "no data in receive message");
    assert_eq!(
        ContractError::EmptyBalance.describe(),
        "send some coins to create a clawback"
    );
}

#[test]
fn top_up_unknown_id_fails() {
    let mut registry = Registry::new();
    let env = mock_env(1000);
    let info = mock_info("source", coins(100, "tokens"));
    let res = handle(&mut registry, &env, info, HandleMsg::TopUp { id: s("nobody") });
    match res.unwrap_err() {
        ContractError::NotFound => {}
        e => panic!("Expected NotFound, got {:?}", e),
    }
}

#[test]
fn list_shows_ids_ascending() {
    let mut registry = Registry::new();
    let env = mock_env(1000);
    for idc in ["zulu", "alpha", "mike"].iter() {
        let create = create_msg(idc, "backup", "holder", 1);
        let info = mock_info("source", coins(1, "tokens"));
        handle(&mut registry, &env, info, HandleMsg::Create(create)).unwrap();
    }
    let list = query_list(&registry);
    assert_eq!(list.clawbacks, vec![s("alpha"), s("mike"), s("zulu")]);
}
