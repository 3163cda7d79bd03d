use bim_business::app_config;
use bim_business::billing::{self, ProductPurchase};
use bim_business::clock;
use bim_business::error::{Error, FailureSource, OrBadParameter};
use bim_business::flat_client_config::{self, DbValueType, SubmittedValue, Value};
use bim_business::game_feature_slots::{self, Slot};
use bim_business::game_features::{self, Feature};
use bim_business::games::{self, RewardReason};
use bim_business::gates::{self, Gate};
use bim_business::inventory::{self, GameFeatureSlotState};
use bim_business::leads::{self, AdminCheckStep};
use bim_business::legacy::{self, TransferResult};
use bim_business::schema;
use bim_business::sessions;
use bim_business::shop::{self, Product};
use bim_business::sql;
use bim_business::text;
use bim_business::token;
use bim_business::users::{self, ProfileResponse};
use bim_business::wallet::{self, TransactionOrigin};

#[test]
fn sql_state_maps_to_error() {
  assert_eq!(Error::from_sql_state(Some("23505")), Error::UniqueViolation);
  assert_eq!(Error::from_sql_state(Some("23503")), Error::Unprocessable);
  assert_eq!(Error::from_sql_state(Some("42P01")), Error::Internal);
  assert_eq!(Error::from_sql_state(Some("2350")), Error::Internal);
  assert_eq!(Error::from_sql_state(None), Error::Internal);
}

#[test]
fn failures_map_to_error() {
  assert_eq!(Error::from_failure(FailureSource::Json), Error::BadParameter);
  assert_eq!(Error::from_failure(FailureSource::ConnectionPool), Error::Internal);
  assert_eq!(Error::from_failure(FailureSource::Random), Error::Internal);
  assert_eq!(Error::from_failure(FailureSource::Io), Error::Internal);
  assert_eq!(Error::from_failure(FailureSource::IntegerConversion), Error::Internal);
  assert_eq!(Error::from_failure(FailureSource::Lock), Error::Internal);
}

#[test]
fn error_status_and_message() {
  assert_eq!(Error::BadParameter.http_status(), 500);
  assert_eq!(Error::Internal.http_status(), 500);
  assert_eq!(Error::UniqueViolation.http_status(), 500);
  assert_eq!(Error::Unprocessable.http_status(), 500);
  assert_eq!(Error::Internal.message(), "Internal error");
  assert_eq!(Error::BadParameter.message(), "Invalid parameter");
  assert_eq!(Error::UniqueViolation.message(), "Violation of the unique constraint");
  assert_eq!(
    Error::Unprocessable.message(),
    "Can't do the operation in the current state"
  );
}

#[test]
fn or_bad_parameter_converts_errors() {
  let ok: Result<i32, String> = Ok(7);
  let err: Result<i32, String> = Err("nope".to_string());
  assert_eq!(ok.or_bad_parameter(), Ok(7));
  assert_eq!(err.or_bad_parameter(), Err(Error::BadParameter));
}

#[test]
fn decimal_numerals() {
  assert_eq!(text::decimal_string(0), "0");
  assert_eq!(text::decimal_string(7), "7");
  assert_eq!(text::decimal_string(1234), "1234");
  assert_eq!(text::decimal_string(u64::MAX), "18446744073709551615");
}

#[test]
fn text_order_and_equality() {
  assert!(text::str_lt("abc", "abd"));
  assert!(text::str_lt("ab", "abc"));
  assert!(!text::str_lt("abc", "abc"));
  assert!(!text::str_lt("b", "abc"));
  assert!(text::str_lt("", "a"));
  assert!(text::str_eq("héhé", "héhé"));
  assert!(!text::str_eq("a", "ab"));
}

#[test]
fn config_numbers_follow_std_parsing() {
  assert_eq!(app_config::get_u64(Some("+80"), 1), 80);
  assert_eq!(app_config::get_u64(Some(""), 1), 1);
  assert_eq!(app_config::get_u64(Some("18446744073709551616"), 1), 1);
  assert_eq!(app_config::get_u64(Some("18446744073709551615"), 1), u64::MAX);
  assert_eq!(app_config::get_i64(Some("-9223372036854775808"), 1), i64::MIN);
  assert_eq!(app_config::get_i64(Some("+"), 1), 1);
  assert_eq!(app_config::get_bool(Some("True"), false), false);
  assert_eq!(app_config::get_bool(Some("false"), true), false);
}

#[test]
fn config_numbers_agree_with_std() {
  let samples: [&str; 24] = [
    "", "+", "-", "0", "+0", "-0", "007", "42", "+42", "-42", "4 2", " 42", "42 ",
    "1e3", "0x10", "+-1", "--1", "65535", "65536", "9223372036854775807",
    "9223372036854775808", "-9223372036854775809", "18446744073709551615",
    "99999999999999999999999",
  ];
  for s in samples {
    assert_eq!(app_config::get_u64(Some(s), 7), s.parse::<u64>().unwrap_or(7), "{s}");
    assert_eq!(app_config::get_i64(Some(s), 7), s.parse::<i64>().unwrap_or(7), "{s}");
    let address = format!("host:{s}");
    assert_eq!(
      bim_business::game_servers::host_part(&address).is_ok(),
      s.parse::<u16>().is_ok(),
      "{s}"
    );
  }
  for s in ["true", "false", "True", "", "truee", " true"] {
    assert_eq!(app_config::get_bool(Some(s), false), s.parse::<bool>().unwrap_or(false), "{s}");
    assert_eq!(app_config::get_bool(Some(s), true), s.parse::<bool>().unwrap_or(true), "{s}");
  }
}

#[test]
fn config_values_with_defaults() {
  assert_eq!(app_config::get_u64(Some("15"), 5), 15);
  assert_eq!(app_config::get_u64(Some("fifteen"), 5), 5);
  assert_eq!(app_config::get_u64(Some("-1"), 5), 5);
  assert_eq!(app_config::get_u64(None, 5), 5);
  assert_eq!(app_config::get_i64(Some("-10"), 10), -10);
  assert_eq!(app_config::get_i64(Some("1.5"), 10), 10);
  assert_eq!(app_config::get_bool(Some("true"), false), true);
  assert_eq!(app_config::get_bool(Some("yes"), false), false);
  assert_eq!(app_config::get_bool(None, true), true);
  assert_eq!(app_config::get_string(Some("x"), ""), "x");
  assert_eq!(app_config::get_string(None, "d"), "d");
}

#[test]
fn app_config_statement() {
  assert_eq!(
    app_config::batch_put_statement(2),
    "insert into app_config values ($1, $2),($3, $4) \
     on conflict (key) do update set value = excluded.value"
  );
  assert_eq!(
    app_config::batch_put_statement(0),
    "insert into app_config values on conflict (key) do update set value = excluded.value"
  );
}

#[test]
fn tuple_lists() {
  assert_eq!(
    sql::statement_with_tuples("v", sql::TupleShape::SharedFirst, 3, ";"),
    "v ($1, $2),($1, $3),($1, $4);"
  );
  assert_eq!(
    sql::statement_with_tuples("v", sql::TupleShape::SingleAfterFirst, 2, ""),
    "v ($2),($3)"
  );
  assert_eq!(
    sql::statement_with_tuples("in (", sql::TupleShape::BareAfterFirst, 3, ")"),
    "in ( $2,$3,$4)"
  );
  assert_eq!(
    sql::statement_with_tuples(
      "values",
      sql::TupleShape::SmallintPairAfterFirst,
      2,
      ""
    ),
    "values ($2::smallint, $3),($4::smallint, $5)"
  );
  assert_eq!(sql::exists_statement("select 1"), "select exists (select 1)");
}

#[test]
fn game_statements() {
  assert_eq!(
    games::active_players_statement(2),
    "insert into active_game_player values ($1, $2),($3, $4)"
  );
  assert_eq!(
    games::done_players_statement(2),
    "insert into done_game_player values ($1, $2),($1, $3)"
  );
}

#[test]
fn durations() {
  assert_eq!(clock::duration_from_minutes(5), Some(300_000_000_000));
  assert_eq!(clock::duration_from_minutes(0), Some(0));
  assert_eq!(clock::duration_from_minutes(u64::MAX / 60 + 1), None);
}

#[test]
fn bot_placeholders_are_replaced_in_order() {
  let players = vec![12, 0, 7, 0, 0];
  assert_eq!(games::count_bot_placeholders(&players), 3);
  let bots = vec![100, 101, 102];
  assert_eq!(
    games::replace_bot_placeholders(&players, &bots),
    vec![12, 100, 7, 101, 102]
  );
  assert_eq!(games::count_bot_placeholders(&[1, 2]), 0);
  assert_eq!(games::replace_bot_placeholders(&[1, 2], &[]), vec![1, 2]);
}

#[test]
fn bot_nicknames() {
  let names: [&str; 3] = ["Alice", "Bob", "Carol"];
  assert_eq!(games::bot_nickname(&names, 4), Some("Bob\u{1F529}".to_string()));
  assert_eq!(games::bot_nickname(&names, 6), Some("Alice\u{1F529}".to_string()));
  assert_eq!(games::bot_nickname(&[], 6), None);
}

#[test]
fn a_reward_is_claimed_once() {
  // The first claim removes the pending reward of 7 coins; the second finds
  // none.
  assert_eq!(games::claimed_reward(Some(7)), Ok(7));
  assert_eq!(games::claimed_reward(None), Err(Error::BadParameter));
}

#[test]
fn a_transaction_sets_the_new_balance() {
  assert_eq!(wallet::transaction_balance(wallet::balance_or_zero(None), 5), Ok(5));
  assert_eq!(wallet::transaction_balance(wallet::balance_or_zero(Some(3)), -3), Ok(0));
  assert_eq!(
    wallet::transaction_balance(wallet::balance_or_zero(Some(3)), -4),
    Err(Error::Unprocessable)
  );
}

#[test]
fn a_created_lead_ends_initialization() {
  assert!(leads::is_in_initialization_state(false));
  assert!(!leads::is_in_initialization_state(true));
  assert!(!leads::admin_check_after_initialization(true));
}

#[test]
fn game_steps() {
  assert_eq!(games::bot_step(0, 2), games::BotStep::Create);
  assert_eq!(games::bot_step(2, 2), games::BotStep::Done);
  assert_eq!(games::bot_step(3, 2), games::BotStep::Done);
  assert_eq!(games::check_played_on_server(true), Ok(()));
  assert_eq!(games::check_played_on_server(false), Err(Error::Unprocessable));
  assert!(games::rewards_player(false));
  assert!(!games::rewards_player(true));
  assert_eq!(legacy::transfer_start(false), Some(TransferResult::Disabled));
  assert_eq!(legacy::transfer_start(true), None);
  assert_eq!(clock::seconds_from_minutes(5), Some(300));
  assert_eq!(clock::seconds_from_minutes(u64::MAX), None);
}

#[test]
fn game_over_checks() {
  assert_eq!(games::check_ranking(&[1, 2], &[0, 1]), Ok(()));
  assert_eq!(
    games::check_ranking(&[1, 2], &[0]),
    Err(Error::Unprocessable)
  );
  assert_eq!(games::check_players_in_game(&[3, 1], &[1, 2, 3]), Ok(()));
  assert_eq!(
    games::check_players_in_game(&[4], &[1, 2, 3]),
    Err(Error::Unprocessable)
  );
  assert_eq!(games::check_players_in_game(&[], &[]), Ok(()));
}

#[test]
fn short_games() {
  let second: i128 = 1_000_000_000;
  assert!(games::is_short_game(0, 29 * second + 999_999_999, 30));
  assert!(!games::is_short_game(0, 30 * second, 30));
  assert!(games::is_short_game(10 * second, 5 * second, 30));
  assert!(!games::is_short_game(0, 0, 0));
}

#[test]
fn reward_keys() {
  assert_eq!(games::victory_reward_key(false, false), None);
  assert_eq!(
    games::victory_reward_key(true, true),
    Some(("games.coins_per_short_game_victory", 0))
  );
  assert_eq!(
    games::victory_reward_key(true, false),
    Some(("games.coins_per_victory", 10))
  );
  assert_eq!(
    games::defeat_reward_key(true),
    ("games.coins_per_short_game_defeat", 0)
  );
  assert_eq!(games::defeat_reward_key(false), ("games.coins_per_defeat", 10));
  assert_eq!(
    games::draw_reward_key(true),
    ("games.coins_per_short_game_draw", 0)
  );
  assert_eq!(games::draw_reward_key(false), ("games.coins_per_draw", 10));
}

#[test]
fn ranking_is_stable() {
  assert_eq!(games::ranking_order(&[2, 0, 1, 0]), vec![1, 3, 2, 0]);
  assert_eq!(games::ranking_order(&[]), Vec::<usize>::new());
  assert_eq!(games::ranking_order(&[-1, 5, -1]), vec![0, 2, 1]);
}

#[test]
fn rewards_with_a_single_winner() {
  let r = games::distribute_rewards(&[1, 0, 2], 10, 3, 5);
  assert_eq!(r.len(), 3);
  assert_eq!(r[0].player_index, 1);
  assert_eq!(r[0].coins, 10);
  assert_eq!(r[0].reason, RewardReason::Victory);
  assert!(r[0].record_reward);
  assert_eq!(r[1].player_index, 0);
  assert_eq!(r[1].reason, RewardReason::Defeat);
  assert_eq!(r[1].coins, 3);
  assert_eq!(r[2].player_index, 2);
  assert_eq!(r[2].reason, RewardReason::Defeat);
}

#[test]
fn rewards_of_a_draw() {
  let r = games::distribute_rewards(&[0, 1, 0], 10, 0, 5);
  assert_eq!(r.iter().map(|d| d.player_index).collect::<Vec<_>>(), vec![0, 2, 1]);
  assert_eq!(r[0].reason, RewardReason::Draw);
  assert_eq!(r[0].coins, 5);
  assert_eq!(r[1].reason, RewardReason::Draw);
  assert_eq!(r[2].reason, RewardReason::Defeat);
  assert_eq!(r[2].coins, 0);
  assert!(!r[2].record_reward);
  assert_eq!(RewardReason::Draw.text(), "game-draw");
  assert_eq!(RewardReason::Victory.text(), "game-victory");
  assert_eq!(RewardReason::Defeat.text(), "game-defeat");
}

#[test]
fn reward_of_a_lone_player() {
  let r = games::distribute_rewards(&[4], 10, 3, 5);
  assert_eq!(r.len(), 1);
  assert_eq!(r[0].reason, RewardReason::Victory);
  assert_eq!(r[0].coins, 10);
}

#[test]
fn claimed_rewards() {
  assert_eq!(games::claimed_reward(Some(12)), Ok(12));
  assert_eq!(games::claimed_reward(None), Err(Error::BadParameter));
}

#[test]
fn stale_game_clean_up() {
  assert!(!games::clean_up_due(100, 50, 149));
  assert!(games::clean_up_due(100, 50, 150));
  assert_eq!(games::clean_up_cutoffs(1000, 10, 300), (990, 700));
}

#[test]
fn wallet_transactions() {
  assert_eq!(wallet::transaction_balance(10, -5), Ok(5));
  assert_eq!(wallet::transaction_balance(10, -10), Ok(0));
  assert_eq!(
    wallet::transaction_balance(3, -5),
    Err(Error::Unprocessable)
  );
  assert_eq!(wallet::transaction_balance(0, 25), Ok(25));
  assert_eq!(wallet::balance_or_zero(None), 0);
  assert_eq!(wallet::balance_or_zero(Some(8)), 8);
  assert_eq!(TransactionOrigin::Admin.text(), "admin");
  assert_eq!(TransactionOrigin::App.text(), "app");
}

#[test]
fn wallet_never_negative_over_a_sequence() {
  let mut balance: i64 = 0;
  for amount in [5, -3, -4, 10, -12, -1] {
    if let Ok(b) = wallet::transaction_balance(balance, amount) {
      balance = b;
    }
    assert!(balance >= 0);
  }
  assert_eq!(balance, 0);
}

#[test]
fn catalog_checks() {
  assert_eq!(
    game_feature_slots::check_slot(&Slot { index: 0, coins: 10 }),
    Ok(())
  );
  assert_eq!(
    game_feature_slots::check_slot(&Slot { index: -1, coins: 10 }),
    Err(Error::BadParameter)
  );
  assert_eq!(
    game_feature_slots::check_slot(&Slot { index: 1, coins: -10 }),
    Err(Error::BadParameter)
  );
  assert_eq!(
    game_features::check_feature(&Feature { name: "a".to_string(), coins: -1 }),
    Err(Error::BadParameter)
  );
  assert_eq!(
    game_features::check_feature(&Feature { name: "a".to_string(), coins: 0 }),
    Ok(())
  );
  assert_eq!(
    shop::check_product(&Product { id: "p".to_string(), coins: -2 }),
    Err(Error::BadParameter)
  );
  assert_eq!(
    shop::check_product(&Product { id: "p".to_string(), coins: 2 }),
    Ok(())
  );
}

#[test]
fn catalog_sorting() {
  let slots = game_feature_slots::sorted_by_index(vec![
    Slot { index: 2, coins: 1 },
    Slot { index: 0, coins: 2 },
    Slot { index: 2, coins: 3 },
  ]);
  assert_eq!(
    slots,
    vec![
      Slot { index: 0, coins: 2 },
      Slot { index: 2, coins: 1 },
      Slot { index: 2, coins: 3 },
    ]
  );

  let features = game_features::sorted_by_name(vec![
    Feature { name: "speed".to_string(), coins: 1 },
    Feature { name: "bomb".to_string(), coins: 2 },
    Feature { name: "shield".to_string(), coins: 3 },
  ]);
  assert_eq!(
    features.iter().map(|f| f.name.as_str()).collect::<Vec<_>>(),
    vec!["bomb", "shield", "speed"]
  );

  let products = shop::sorted_by_coins(vec![
    Product { id: "b".to_string(), coins: 500 },
    Product { id: "a".to_string(), coins: 200 },
    Product { id: "c".to_string(), coins: 500 },
  ]);
  assert_eq!(
    products.iter().map(|p| p.id.as_str()).collect::<Vec<_>>(),
    vec!["a", "b", "c"]
  );
}

#[test]
fn inventory_sorting_and_purchases() {
  let slots = inventory::sorted_by_slot_index(vec![
    GameFeatureSlotState { slot_index: 1, feature: None },
    GameFeatureSlotState { slot_index: 0, feature: Some("bomb".to_string()) },
  ]);
  assert_eq!(slots[0].slot_index, 0);
  assert_eq!(slots[0].feature, Some("bomb".to_string()));
  assert_eq!(slots[1].slot_index, 1);

  let names = inventory::sorted_names(vec![
    "b".to_string(),
    "a".to_string(),
    "c".to_string(),
  ]);
  assert_eq!(names, vec!["a", "b", "c"]);

  assert_eq!(inventory::purchase_amount(30), -30);
  assert_eq!(inventory::purchase_for(Some(30)), Ok(-30));
  assert_eq!(inventory::purchase_for(None), Err(Error::Unprocessable));
  assert_eq!(inventory::check_selection_stored(2, 2), Ok(()));
  assert_eq!(
    inventory::check_selection_stored(1, 2),
    Err(Error::Unprocessable)
  );
}

#[test]
fn inventory_selection_statement() {
  let s = inventory::selection_statement(1);
  assert!(s.starts_with("insert into user_selected_game_features"));
  assert!(s.contains("from (values ($2::smallint, $3)) as selection"));
  assert!(s.ends_with("do update set feature_id = excluded.feature_id"));
}

#[test]
fn profiles() {
  let p = users::sorted_by_user_id(vec![
    ProfileResponse { user_id: 9, nickname: "n".to_string() },
    ProfileResponse { user_id: 3, nickname: "m".to_string() },
  ]);
  assert_eq!(p[0].user_id, 3);
  assert_eq!(p[1].user_id, 9);
  let s = users::profile_statement(2);
  assert!(s.ends_with("where u.user_id in ( $2,$3)"));
}

#[test]
fn legacy_transfer_outcomes() {
  assert_eq!(legacy::transfer_outcome(Ok(())), Ok(TransferResult::Done));
  assert_eq!(
    legacy::transfer_outcome(Err(Error::UniqueViolation)),
    Ok(TransferResult::AlreadyDone)
  );
  assert_eq!(
    legacy::transfer_outcome(Err(Error::Unprocessable)),
    Err(Error::Unprocessable)
  );
  assert_eq!(legacy::transfer_state_code(TransferResult::Disabled), 0);
  assert_eq!(legacy::transfer_state_code(TransferResult::Done), 1);
  assert_eq!(legacy::transfer_state_code(TransferResult::AlreadyDone), 2);
  assert!(legacy::commits_transfer(TransferResult::Done));
  assert!(!legacy::commits_transfer(TransferResult::AlreadyDone));
  assert_eq!(
    legacy::slots_statement(2),
    "insert into user_available_game_feature_slots\n      values ($1, $2),($1, $3) on conflict do nothing"
  );
  assert!(legacy::features_statement(1).contains("from (values  ($2)) as u(feature_name)"));
}

#[test]
fn session_helpers() {
  assert_eq!(sessions::default_nickname(42), "user_42");
  assert_eq!(sessions::default_nickname(-7), "user_-7");
  assert_eq!(sessions::session_expiry(100, 50), 150);
  assert!(sessions::session_removal_skipped(100, 50, 151));
  assert!(!sessions::session_removal_skipped(100, 50, 150));
  assert_eq!(sessions::reused_session(vec![]), None);
  assert_eq!(
    sessions::reused_session(vec![("t1".to_string(), 1), ("t2".to_string(), 2)]),
    Some(("t1".to_string(), 1))
  );
}

#[test]
fn admin_checks() {
  assert!(leads::is_in_initialization_state(false));
  assert!(!leads::is_in_initialization_state(true));
  assert_eq!(leads::admin_check_start(false, false), AdminCheckStep::Decided(false));
  assert_eq!(
    leads::admin_check_start(false, true),
    AdminCheckStep::LookUpInitialization
  );
  assert_eq!(leads::admin_check_start(true, false), AdminCheckStep::LookUpToken);
  assert_eq!(leads::admin_check_start(true, true), AdminCheckStep::LookUpToken);
  assert_eq!(
    leads::admin_check_after_token(true, false),
    AdminCheckStep::Decided(true)
  );
  assert_eq!(
    leads::admin_check_after_token(false, true),
    AdminCheckStep::LookUpInitialization
  );
  assert_eq!(
    leads::admin_check_after_token(false, false),
    AdminCheckStep::Decided(false)
  );
  assert!(leads::admin_check_after_initialization(false));
  assert!(!leads::admin_check_after_initialization(true));

  // The weak check lets a request without a header in while there is no
  // administrator.
  match leads::admin_check_start(false, true) {
    AdminCheckStep::LookUpInitialization => assert!(leads::admin_check_after_initialization(false)),
    _ => panic!("expected a look up of the administrators"),
  }
}

#[test]
fn guards() {
  assert_eq!(gates::identity_gate::<i64>(None), Gate::Reject(401));
  assert_eq!(gates::identity_gate::<i64>(Some(Err(Error::Internal))), Gate::Reject(500));
  assert_eq!(gates::identity_gate::<i64>(Some(Ok(None))), Gate::Reject(401));
  assert_eq!(gates::identity_gate(Some(Ok(Some(5i64)))), Gate::Pass(5));
  assert_eq!(
    gates::identity_gate(Some(Ok(Some(String::from("server-1"))))),
    Gate::Pass(String::from("server-1"))
  );
  assert_eq!(gates::identity_gate::<String>(Some(Ok(None))), Gate::Reject(401));
  assert_eq!(gates::admin_gate(Ok(true)), None);
  assert_eq!(gates::admin_gate(Ok(false)), Some(401));
  assert_eq!(gates::admin_gate(Err(Error::Internal)), Some(500));
}

#[test]
fn schema_migration() {
  assert_eq!(schema::stored_version(None), 0);
  assert_eq!(schema::stored_version(Some(4)), 4);
  assert_eq!(schema::migration_script(0), "db/1.sql");
  assert_eq!(schema::migration_script(41), "db/42.sql");
  assert!(schema::migration_applied(3, 1));
  assert!(!schema::migration_applied(1, 1));
  assert_eq!(schema::migration_step(0, true), Some(1));
  assert_eq!(schema::migration_step(4, false), None);
}

#[test]
fn flat_config_values_round_trip() {
  let (code, i, s) = flat_client_config::stored_columns(&Value::Int64(-5));
  assert_eq!((code, i, s.as_str()), (0, -5, ""));
  let t = flat_client_config::value_type_from_code(code).unwrap();
  assert_eq!(t, DbValueType::Int64);
  match flat_client_config::value_from_columns(t, i, s) {
    Value::Int64(v) => assert_eq!(v, -5),
    Value::Text(_) => panic!("expected an integer"),
  }

  let (code, i, s) =
    flat_client_config::stored_columns(&Value::Text("hello".to_string()));
  assert_eq!((code, i, s.as_str()), (1, 0, "hello"));
  let t = flat_client_config::value_type_from_code(code).unwrap();
  match flat_client_config::value_from_columns(t, i, s) {
    Value::Text(v) => assert_eq!(v, "hello"),
    Value::Int64(_) => panic!("expected a text"),
  }

  assert_eq!(
    flat_client_config::value_type_from_code(2),
    Err(Error::BadParameter)
  );
  assert_eq!(DbValueType::Text.code(), 1);
}

#[test]
fn submitted_flat_config_values() {
  match flat_client_config::value_of_submitted(SubmittedValue::Text("baz".to_string())) {
    Ok(Value::Text(v)) => assert_eq!(v, "baz"),
    _ => panic!("expected a text"),
  }
  match flat_client_config::value_of_submitted(SubmittedValue::Number(Some(123))) {
    Ok(Value::Int64(v)) => assert_eq!(v, 123),
    _ => panic!("expected an integer"),
  }
  assert!(matches!(
    flat_client_config::value_of_submitted(SubmittedValue::Number(None)),
    Err(Error::BadParameter)
  ));
  assert!(matches!(
    flat_client_config::value_of_submitted(SubmittedValue::Other),
    Err(Error::BadParameter)
  ));
}

#[test]
fn billing_rules() {
  let paid = ProductPurchase {
    purchase_state: 0,
    consumption_state: 0,
    order_id: "GPA.1".to_string(),
    quantity: None,
  };
  assert_eq!(billing::check_purchase(&paid), Ok(()));
  let consumed = ProductPurchase {
    purchase_state: 0,
    consumption_state: 1,
    order_id: "GPA.2".to_string(),
    quantity: Some(2),
  };
  assert_eq!(billing::check_purchase(&consumed), Err(Error::BadParameter));
  let pending = ProductPurchase {
    purchase_state: 2,
    consumption_state: 0,
    order_id: "GPA.3".to_string(),
    quantity: None,
  };
  assert_eq!(billing::check_purchase(&pending), Err(Error::BadParameter));
  assert_eq!(billing::check_first_record(true), Ok(()));
  assert_eq!(billing::check_first_record(false), Err(Error::BadParameter));
  assert_eq!(
    billing::checked_purchase_credit(paid),
    ("GPA.1".to_string(), 1)
  );
  assert_eq!(
    billing::checked_purchase_credit(consumed),
    ("GPA.2".to_string(), 2)
  );
  assert_eq!(
    billing::unchecked_purchase_credit(),
    ("purchase".to_string(), 1)
  );
  assert_eq!(billing::unit_coins(Some(200)), Ok(200));
  assert_eq!(billing::unit_coins(None), Err(Error::BadParameter));
  assert_eq!(billing::purchase_coins(200, 3), 600);
  assert_eq!(
    billing::purchase_coins(i32::MAX, i32::MAX),
    (i32::MAX as i64) * (i32::MAX as i64)
  );
  assert_eq!(
    billing::purchase_url("com.bim", "coins-100", "tok"),
    "https://androidpublisher.googleapis.com/androidpublisher/v3/applications/com.bim/purchases/products/coins-100/tokens/tok"
  );
  assert_eq!(
    billing::consume_url("com.bim", "coins-100", "tok"),
    "https://androidpublisher.googleapis.com/androidpublisher/v3/applications/com.bim/purchases/products/coins-100/tokens/tok:consume"
  );
}

#[test]
fn tokens() {
  assert_eq!(token::encode_token(&[0, 1, 2]), "AAEC");
  assert_eq!(token::encode_token(&[255]), "/w==");
  assert_eq!(token::encode_token(&[]), "");
  let t = token::generate_token(32).unwrap();
  assert_eq!(t.len(), 44);
  assert!(t.ends_with('='));
  assert!(!t[..43].ends_with('='));
  let u = token::generate_token(32).unwrap();
  assert_ne!(t, u);
  let w = token::generate_token(30).unwrap();
  assert_eq!(w.len(), 40);
  assert!(!w.ends_with('='));
  assert_eq!(token::generate_token(31).unwrap().len(), 44);
  assert!(token::generate_token(31).unwrap().ends_with("=="));
}

#[test]
fn base64_alphabet() {
  assert_eq!(token::encode_token(b"Man"), "TWFu");
  assert_eq!(token::encode_token(b"Ma"), "TWE=");
  assert_eq!(token::encode_token(b"M"), "TQ==");
  assert_eq!(token::encode_token(&[251, 239]), "++8=");
  assert_eq!(token::encode_token(&[255, 255, 255, 0]), "////AA==");
}
