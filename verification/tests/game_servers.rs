use bim_business::error::Error;
use bim_business::game_servers::{
  callback_delay_seconds, check_host_part, host_part, valid_server_id, Internals,
};

#[test]
fn host_parts() {
  assert_eq!(host_part("example.com:8080"), Ok("example.com".to_string()));
  assert_eq!(host_part("[::1]:80"), Ok("[::1]".to_string()));
  assert_eq!(host_part("10.0.0.1:+80"), Ok("10.0.0.1".to_string()));
  assert_eq!(host_part("a:b:80"), Ok("a:b".to_string()));
  assert_eq!(host_part(":80"), Ok("".to_string()));
  assert_eq!(host_part("example.com"), Err(Error::BadParameter));
  assert_eq!(host_part("example.com:99999"), Err(Error::BadParameter));
  assert_eq!(host_part("example.com:"), Err(Error::BadParameter));
  assert_eq!(host_part("example.com:80:x"), Err(Error::BadParameter));
}

#[test]
fn host_lengths() {
  let long = "a".repeat(256);
  assert_eq!(check_host_part(&long, false), Err(Error::BadParameter));
  assert_eq!(check_host_part(&long, true), Ok(()));
  assert_eq!(check_host_part(&"a".repeat(255), false), Ok(()));
  // The limit counts bytes: 128 two-byte characters are too many.
  assert_eq!(check_host_part(&"é".repeat(128), false), Err(Error::BadParameter));
}

#[test]
fn server_ids() {
  assert!(valid_server_id("my-game_server-01"));
  assert!(valid_server_id(""));
  assert!(!valid_server_id("my server"));
  assert!(!valid_server_id("serveur-é"));
  assert!(!valid_server_id("a/b"));
}

#[test]
fn callback_delay() {
  assert_eq!(callback_delay_seconds(300), 150);
  assert_eq!(callback_delay_seconds(3), 1);
  assert_eq!(callback_delay_seconds(0), 0);
  assert_eq!(callback_delay_seconds(u64::MAX), u64::MAX / 2);
}

#[test]
fn servers_are_listed_while_they_notify() {
  let second: u128 = 1_000_000_000;
  let mut registry = Internals::new(0);
  let delay = registry.hello(
    "a".to_string(),
    "a.example:1".to_string(),
    3,
    7,
    0,
    300,
  );
  assert_eq!(delay, 150);
  registry.hello("b".to_string(), "b.example:1".to_string(), 3, 8, 0, 300);
  assert_eq!(registry.online_count(), 2);

  // Before the clean up delay, nothing is removed.
  assert_eq!(
    registry.online_hosts_at(7, 100 * second, 300 * second),
    vec!["a.example:1"]
  );
  assert_eq!(registry.date_of_last_clean_up(), 0);

  // The server a notifies again, with a new host.
  registry.hello("a".to_string(), "a2.example:1".to_string(), 4, 7, 200 * second, 300);
  assert_eq!(registry.online_count(), 2);
  assert_eq!(registry.online_server(0).host, "a2.example:1");
  assert_eq!(registry.online_server(0).version, 4);

  // At 400 s the clean up runs: b expired at 300 s, a lives until 500 s.
  assert_eq!(
    registry.online_hosts_at(7, 400 * second, 300 * second),
    vec!["a2.example:1"]
  );
  assert_eq!(registry.online_hosts_at(8, 400 * second, 300 * second), Vec::<String>::new());
  assert_eq!(registry.online_count(), 1);
  assert_eq!(registry.date_of_last_clean_up(), 400 * second);
}

#[test]
fn clean_up_removes_expired_servers() {
  let mut registry = Internals::new(0);
  registry.record_hello("x".to_string(), "x:1".to_string(), 1, 1, 10);
  registry.record_hello("y".to_string(), "y:1".to_string(), 1, 1, 20);
  registry.record_hello("z".to_string(), "z:1".to_string(), 1, 2, 30);
  registry.server_clean_up(20);
  assert_eq!(registry.online_count(), 1);
  assert_eq!(registry.online_server(0).id, "z");
  registry.server_clean_up(20);
  assert_eq!(registry.online_count(), 1);
  assert_eq!(registry.online_hosts_for_protocol(2), vec!["z:1"]);
}

#[test]
fn clean_up_at_two_instants_is_clean_up_at_the_later() {
  let fill = |r: &mut Internals| {
    r.record_hello("x".to_string(), "x:1".to_string(), 1, 1, 10);
    r.record_hello("y".to_string(), "y:1".to_string(), 1, 1, 20);
    r.record_hello("z".to_string(), "z:1".to_string(), 1, 1, 30);
  };
  let mut twice = Internals::new(0);
  fill(&mut twice);
  twice.server_clean_up(15);
  twice.server_clean_up(25);
  let mut once = Internals::new(0);
  fill(&mut once);
  once.server_clean_up(25);
  assert_eq!(twice.online_hosts_for_protocol(1), once.online_hosts_for_protocol(1));
  assert_eq!(once.online_hosts_for_protocol(1), vec!["z:1"]);
}

#[test]
fn declared_info_of_online_servers() {
  let mut registry = Internals::new(0);
  registry.record_hello("x".to_string(), "x:1".to_string(), 5, 6, 10);
  let info = registry.declared_info("x").unwrap();
  assert_eq!(info.host, "x:1");
  assert_eq!(info.version, 5);
  assert_eq!(info.protocol_version, 6);
  assert!(registry.declared_info("y").is_none());
}
