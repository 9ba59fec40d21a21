use pokebot::config::{default_local, default_name, default_verbose, Args, MasterArgs};
use pokebot::errors::BotCreationError;
use pokebot::master::{MasterAction, MasterBot, MasterEvent};
use pokebot::pool::ResourcePool;

fn sample_args(names: &[&str], id_count: usize) -> MasterArgs {
    MasterArgs {
        master_name: String::from("PokeBot"),
        local: false,
        address: String::from("ts.example.com"),
        channel: None,
        verbose: 0,
        domain: String::from("example.com"),
        bind_address: String::from("127.0.0.1:8080"),
        names: names.iter().map(|s| String::from(*s)).collect(),
        id: Some(String::from("master-key")),
        ids: Some((0..id_count).map(|i| format!("key-{}", i)).collect()),
    }
}

fn path() -> Option<String> {
    Some(String::from("Top/Music"))
}

#[test]
fn master_channel_always_refused() {
    let mut bot = MasterBot::new_with_seed(sample_args(&["alpha", "beta"], 2), 1);
    let r = bot.create_worker(Some(5), 5, path());
    match r {
        Err(BotCreationError::MasterChannel(name)) => assert_eq!(name, "PokeBot"),
        other => panic!("expected MasterChannel, got {:?}", other),
    }
    // nothing consumed by the refusal
    assert_eq!(bot.pool.names_available(), 2);
    assert_eq!(bot.pool.ids_available(), 2);
    assert_eq!(bot.pool.active_count(), 0);
}

#[test]
fn master_channel_refused_with_empty_pools_too() {
    let mut bot = MasterBot::new_with_seed(sample_args(&[], 0), 1);
    let r = bot.create_worker(Some(5), 5, path());
    assert!(matches!(r, Err(BotCreationError::MasterChannel(_))));
}

#[test]
fn unlocated_user_refused() {
    let mut bot = MasterBot::new_with_seed(sample_args(&["alpha"], 1), 1);
    let r = bot.create_worker(None, 5, None);
    assert!(matches!(r, Err(BotCreationError::UnfoundUser)));
    assert_eq!(bot.pool.names_available(), 1);
    assert_eq!(bot.pool.ids_available(), 1);
}

#[test]
fn occupied_channel_refused_with_occupant_name() {
    let mut bot = MasterBot::new_with_seed(sample_args(&["alpha", "beta"], 2), 7);
    let first = bot.create_worker(Some(7), 1, path()).expect("first grant");
    let names_left = bot.pool.names_available();
    let ids_left = bot.pool.ids_available();
    let r = bot.create_worker(Some(7), 1, path());
    match r {
        Err(BotCreationError::MultipleBots(name)) => assert_eq!(name, first.name),
        other => panic!("expected MultipleBots, got {:?}", other),
    }
    // the rejection consumed nothing
    assert_eq!(bot.pool.names_available(), names_left);
    assert_eq!(bot.pool.ids_available(), ids_left);
    assert_eq!(bot.pool.active_count(), 1);
}

#[test]
fn last_slot_goes_to_exactly_one_invitation() {
    let mut bot = MasterBot::new_with_seed(sample_args(&["alpha"], 1), 3);
    let first = bot.create_worker(Some(7), 1, path());
    assert!(first.is_ok());
    let second = bot.create_worker(Some(8), 1, path());
    assert!(matches!(second, Err(BotCreationError::OutOfNames)));
    assert_eq!(bot.pool.active_count(), 1);
}

#[test]
fn exhausted_identities_do_not_consume_a_name() {
    let mut pool = ResourcePool::with_seed(2, 1, 11);
    let (n, i) = pool.try_allocate().expect("one full pair is there");
    assert!(n < 2 && i < 1);
    let r = pool.try_allocate();
    assert!(matches!(r, Err(BotCreationError::OutOfIdentities)));
    // the one remaining name index is still available
    assert_eq!(pool.names_available(), 1);
    assert!(pool.name_is_available(1 - n));
}

#[test]
fn exhausted_names_reported_first() {
    let mut pool = ResourcePool::with_seed(0, 3, 11);
    let r = pool.try_allocate();
    assert!(matches!(r, Err(BotCreationError::OutOfNames)));
    assert_eq!(pool.ids_available(), 3);
}

#[test]
fn allocated_indices_are_distinct_and_in_range() {
    let mut pool = ResourcePool::with_seed(5, 5, 99);
    let mut names = Vec::new();
    let mut ids = Vec::new();
    for _ in 0..5 {
        let (n, i) = pool.try_allocate().expect("slots remain");
        assert!(n < 5 && i < 5);
        assert!(!names.contains(&n), "name index handed out twice");
        assert!(!ids.contains(&i), "identity index handed out twice");
        names.push(n);
        ids.push(i);
    }
    assert!(matches!(pool.try_allocate(), Err(BotCreationError::OutOfNames)));
}

#[test]
fn release_restores_the_pool_exactly() {
    let mut bot = MasterBot::new_with_seed(sample_args(&["alpha"], 1), 5);
    let args = bot.create_worker(Some(7), 1, path()).expect("grant");
    assert_eq!(args.name, "alpha");
    assert_eq!(bot.pool.names_available(), 0);
    assert_eq!(bot.pool.ids_available(), 0);
    assert_eq!(bot.pool.active_count(), 1);

    bot.release_worker(&args.name, args.name_index, args.id_index);
    assert_eq!(bot.pool.names_available(), 1);
    assert_eq!(bot.pool.ids_available(), 1);
    assert_eq!(bot.pool.active_count(), 0);
    assert!(bot.pool.name_is_available(args.name_index));
    assert!(bot.pool.id_is_available(args.id_index));

    // the same name can be granted again
    let again = bot.create_worker(Some(7), 1, path()).expect("second grant");
    assert_eq!(again.name, "alpha");
}

#[test]
fn quit_reaches_every_worker_before_the_master_disconnects() {
    let mut bot = MasterBot::new_with_seed(sample_args(&["alpha", "beta", "gamma"], 3), 2);
    for channel in [10u64, 11, 12] {
        bot.create_worker(Some(channel), 1, path()).expect("grant");
    }
    let actions = bot.quit(String::from("shutdown"));
    assert_eq!(actions.len(), 4);
    let expected_names = bot.bot_names();
    for (k, action) in actions.iter().take(3).enumerate() {
        match action {
            MasterAction::SendWorkerQuit { name, reason } => {
                assert_eq!(name, &expected_names[k]);
                assert_eq!(reason, "shutdown");
            }
            other => panic!("expected SendWorkerQuit, got {:?}", other),
        }
    }
    // the master's own shutdown is enqueued only after every worker was told
    assert_eq!(
        actions[3],
        MasterAction::EnqueueQuit { reason: String::from("shutdown") }
    );
    // and the loop answers that enqueued event by disconnecting the master
    let (disconnect, stop) = bot.route_event(
        MasterEvent::Quit { reason: String::from("shutdown") },
        42,
    );
    assert!(stop);
    assert_eq!(
        disconnect,
        vec![MasterAction::DisconnectMaster { reason: String::from("shutdown") }]
    );
}

#[test]
fn routing_poke_spawns_for_the_inviter() {
    let bot = MasterBot::new_with_seed(sample_args(&["alpha"], 1), 2);
    let (actions, stop) = bot.route_event(MasterEvent::TextMessage { poke_from: Some(31) }, 1);
    assert!(!stop);
    assert_eq!(actions, vec![MasterAction::SpawnFor { user: 31 }]);
    let (actions, stop) = bot.route_event(MasterEvent::TextMessage { poke_from: None }, 1);
    assert!(!stop);
    assert!(actions.is_empty());
}

#[test]
fn routing_channel_added_subscribes() {
    let bot = MasterBot::new_with_seed(sample_args(&["alpha"], 1), 2);
    let (actions, stop) = bot.route_event(MasterEvent::ChannelAdded { channel: 9 }, 1);
    assert!(!stop);
    assert_eq!(actions, vec![MasterAction::Subscribe { channel: 9 }]);
}

#[test]
fn routing_own_arrival_sets_description() {
    let bot = MasterBot::new_with_seed(sample_args(&["alpha"], 1), 2);
    let (actions, stop) = bot.route_event(MasterEvent::ClientAdded { id: 4 }, 4);
    assert!(!stop);
    assert_eq!(
        actions,
        vec![MasterAction::SetDescription {
            text: String::from("Poke me if you want a music bot!")
        }]
    );
    let (actions, stop) = bot.route_event(MasterEvent::ClientAdded { id: 5 }, 4);
    assert!(!stop);
    assert!(actions.is_empty());
}

#[test]
fn routing_own_drop_stops_the_loop() {
    let bot = MasterBot::new_with_seed(sample_args(&["alpha"], 1), 2);
    let (actions, stop) = bot.route_event(MasterEvent::ClientDisconnected { id: 4 }, 4);
    assert!(stop);
    assert!(actions.is_empty());
    let (actions, stop) = bot.route_event(MasterEvent::ClientDisconnected { id: 5 }, 4);
    assert!(!stop);
    assert!(actions.is_empty());
}

#[test]
fn routing_ignores_other_events() {
    let bot = MasterBot::new_with_seed(sample_args(&["alpha"], 1), 2);
    let (actions, stop) = bot.route_event(MasterEvent::Other, 4);
    assert!(!stop);
    assert!(actions.is_empty());
}

#[test]
fn denial_messages_render_exactly() {
    assert_eq!(
        BotCreationError::UnfoundUser.message(),
        "I can't find you in the channel list, either I am not subscribed to your channel or this is a bug."
    );
    assert_eq!(
        BotCreationError::MasterChannel(String::from("PokeBot")).message(),
        "Joining the channel of \"PokeBot\" is not allowed"
    );
    assert_eq!(
        BotCreationError::MultipleBots(String::from("alpha")).message(),
        "\"alpha\" is already in this channel. Multiple bots in one channel are not allowed."
    );
    assert_eq!(
        BotCreationError::OutOfNames.message(),
        "Out of names. Too many bots are already connected!"
    );
    assert_eq!(
        BotCreationError::OutOfIdentities.message(),
        "Out of identities. Too many bots are already connected!"
    );
}

#[test]
fn merge_explicit_arguments_override() {
    let merged = sample_args(&["alpha"], 1).merge(Args {
        address: Some(String::from("other.example.com")),
        local: true,
        master_channel: Some(String::from("Lobby")),
        verbose: 3,
    });
    assert_eq!(merged.address, "other.example.com");
    assert!(merged.local);
    assert_eq!(merged.channel.as_deref(), Some("Lobby"));
    assert_eq!(merged.verbose, 3);
    assert_eq!(merged.master_name, "PokeBot");
    assert_eq!(merged.domain, "example.com");
    assert_eq!(merged.bind_address, "127.0.0.1:8080");
    assert_eq!(merged.names, vec![String::from("alpha")]);
}

#[test]
fn merge_keeps_configured_values_without_arguments() {
    let mut base = sample_args(&["alpha"], 1);
    base.channel = Some(String::from("Home"));
    base.verbose = 2;
    let merged = base.merge(Args {
        address: None,
        local: false,
        master_channel: None,
        verbose: 0,
    });
    assert_eq!(merged.address, "ts.example.com");
    assert!(!merged.local);
    assert_eq!(merged.channel.as_deref(), Some("Home"));
    assert_eq!(merged.verbose, 2);
    assert_eq!(merged.ids.as_ref().map(|v| v.len()), Some(1));
}

#[test]
fn defaults_match_the_documented_values() {
    assert_eq!(default_name(), "PokeBot");
    assert!(!default_local());
    assert_eq!(default_verbose(), 0);
}

#[test]
fn bot_names_reports_active_workers() {
    let mut bot = MasterBot::new_with_seed(sample_args(&["alpha", "beta"], 2), 8);
    assert!(bot.bot_names().is_empty());
    let first = bot.create_worker(Some(1), 9, path()).expect("grant");
    let second = bot.create_worker(Some(2), 9, path()).expect("grant");
    assert_eq!(bot.bot_names(), vec![first.name, second.name]);
}

#[test]
fn seeded_allocation_is_reproducible() {
    let mut a = ResourcePool::with_seed(4, 4, 77);
    let mut b = ResourcePool::with_seed(4, 4, 77);
    for _ in 0..4 {
        assert_eq!(a.try_allocate().unwrap(), b.try_allocate().unwrap());
    }
}

#[test]
fn allocation_does_not_always_take_the_last_index() {
    // shuffling precedes every draw: if the shuffle left its input
    // untouched, every seed would hand out the highest index first
    let mut saw_other = false;
    for seed in 0..32 {
        let mut pool = ResourcePool::with_seed(3, 3, seed);
        let (n, _) = pool.try_allocate().unwrap();
        if n != 2 {
            saw_other = true;
        }
    }
    assert!(saw_other, "every seed drew the pre-shuffle last index");
}

#[test]
fn channel_in_use_names_the_occupant() {
    let mut bot = MasterBot::new_with_seed(sample_args(&["alpha", "beta"], 2), 21);
    assert!(bot.pool.channel_in_use(7).is_none());
    let granted = bot.create_worker(Some(7), 1, path()).expect("grant");
    assert_eq!(bot.pool.channel_in_use(7), Some(granted.name));
    assert!(bot.pool.channel_in_use(8).is_none());
}
