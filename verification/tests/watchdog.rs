use probe_server::command::Command;
use probe_server::database::ClientRow;
use probe_server::ingest::ingest;
use probe_server::registry::Registry;
use probe_server::structs::{AdditionalInfo, Request};
use probe_server::watchdog::{
    silent_too_long, Round, Watchdog, WatchdogError, CLIENT_TIMEOUT,
    DEFAULT_COMMAND_CHANNEL_TIMEOUT,
};

const TIMEOUT: u32 = 1500;

fn registry_of_three() -> Registry {
    let mut registry = Registry::new();
    registry.register("uuid-a", 100, Some("alpha".to_string()), 10_000).unwrap();
    registry.register("uuid-b", 200, None, 10_100).unwrap();
    registry.register("uuid-c", 300, Some("gamma".to_string()), 10_200).unwrap();
    registry
}

fn event(action: &str, uuid: &str) -> Request {
    Request::new("1.6.1".to_string(), action.to_string(), uuid.to_string(), None)
}

#[test]
fn constants_have_their_values() {
    assert_eq!(CLIENT_TIMEOUT, 1500);
    assert_eq!(DEFAULT_COMMAND_CHANNEL_TIMEOUT, 10);
}

#[test]
fn silence_is_too_long_only_beyond_the_timeout() {
    let row = ClientRow::new(1, "uuid-a".to_string(), 0, 10_000, None);
    assert!(!silent_too_long(&row, 10_000, TIMEOUT));
    assert!(!silent_too_long(&row, 11_499, TIMEOUT));
    assert!(!silent_too_long(&row, 11_500, TIMEOUT));
    assert!(silent_too_long(&row, 11_501, TIMEOUT));
    assert!(silent_too_long(&row, u32::MAX, TIMEOUT));
}

#[test]
fn silence_of_a_client_seen_in_the_future_is_not_too_long() {
    let row = ClientRow::new(1, "uuid-a".to_string(), 0, 10_000, None);
    assert!(!silent_too_long(&row, 0, TIMEOUT));
    assert!(!silent_too_long(&row, 9_999, 0));
    assert!(!silent_too_long(&row, 10_000, 0));
    assert!(silent_too_long(&row, 10_001, 0));
}

#[test]
fn start_seeds_with_the_clients_seen_within_the_timeout() {
    let registry = registry_of_three();
    let w = Watchdog::start(&registry, 11_600, TIMEOUT);
    assert_eq!(w.watched_ids(), &vec![3]);
    assert_eq!(w.timeout(), TIMEOUT);
    let w = Watchdog::start(&registry, 11_599, TIMEOUT);
    assert_eq!(w.watched_ids(), &vec![2, 3]);
    let w = Watchdog::start(&registry, 11_000, TIMEOUT);
    assert_eq!(w.watched_ids(), &vec![1, 2, 3]);
    let w = Watchdog::start(&registry, 20_000, TIMEOUT);
    assert_eq!(w.watched_ids(), &Vec::<i32>::new());
}

#[test]
fn start_before_the_timeout_has_passed_once_takes_every_client() {
    let mut registry = Registry::new();
    registry.register("uuid-a", 0, None, 0).unwrap();
    registry.register("uuid-b", 0, None, 5).unwrap();
    let w = Watchdog::start(&registry, 100, TIMEOUT);
    assert_eq!(w.watched_ids(), &vec![1, 2]);
    let w = Watchdog::start(&registry, 0, 0);
    assert_eq!(w.watched_ids(), &vec![2]);
}

#[test]
fn observe_adds_an_id_once() {
    let registry = Registry::new();
    let mut w = Watchdog::start(&registry, 0, TIMEOUT);
    assert!(!w.watches(7));
    assert!(w.observe(&Command::Seen(7)));
    assert!(w.watches(7));
    assert!(w.observe(&Command::Seen(7)));
    assert!(w.observe(&Command::Seen(3)));
    assert!(w.observe(&Command::Seen(7)));
    assert_eq!(w.watched_ids(), &vec![7, 3]);
}

#[test]
fn observe_passes_over_notifications_and_stops_on_terminate() {
    let registry = registry_of_three();
    let mut w = Watchdog::start(&registry, 11_000, TIMEOUT);
    assert!(w.observe(&Command::Notify("text".to_string())));
    assert_eq!(w.watched_ids(), &vec![1, 2, 3]);
    assert!(!w.observe(&Command::Terminate));
    assert_eq!(w.watched_ids(), &vec![1, 2, 3]);
}

#[test]
fn sweep_without_silent_clients_says_nothing() {
    let registry = registry_of_three();
    let mut w = Watchdog::start(&registry, 11_000, TIMEOUT);
    assert_eq!(w.sweep(&registry, 11_000), Ok(None));
    assert_eq!(w.sweep(&registry, 11_500), Ok(None));
    assert_eq!(w.watched_ids(), &vec![1, 2, 3]);
}

#[test]
fn sweep_reports_at_the_first_moment_beyond_the_timeout() {
    let registry = registry_of_three();
    let mut w = Watchdog::start(&registry, 11_000, TIMEOUT);
    assert_eq!(w.sweep(&registry, 11_500), Ok(None));
    assert_eq!(
        w.sweep(&registry, 11_501),
        Ok(Some(Command::Notify("Clients offline:\n<b>alpha</b>: <code>uuid-a</code>".to_string())))
    );
    assert_eq!(w.watched_ids(), &vec![2, 3]);
}

#[test]
fn sweep_reports_a_silent_client_once() {
    let registry = registry_of_three();
    let mut w = Watchdog::start(&registry, 11_000, TIMEOUT);
    assert!(w.sweep(&registry, 11_501).unwrap().is_some());
    assert!(!w.watches(1));
    assert_eq!(w.sweep(&registry, 11_501), Ok(None));
    assert_eq!(w.sweep(&registry, 11_502), Ok(None));
    assert_eq!(w.sweep(&registry, 11_600), Ok(None));
    assert_eq!(w.watched_ids(), &vec![2, 3]);
}

#[test]
fn three_clients_gone_in_one_sweep_make_one_notification() {
    let registry = registry_of_three();
    let mut w = Watchdog::start(&registry, 11_000, TIMEOUT);
    let out = w.sweep(&registry, 20_000);
    assert_eq!(
        out,
        Ok(Some(Command::Notify(
            "Clients offline:\n<b>alpha</b>: <code>uuid-a</code>\n<b>(no hostname)</b>: <code>uuid-b</code>\n<b>gamma</b>: <code>uuid-c</code>"
                .to_string()
        )))
    );
    assert_eq!(w.watched_ids(), &Vec::<i32>::new());
    assert_eq!(w.sweep(&registry, 20_001), Ok(None));
}

#[test]
fn batch_follows_the_registry_not_the_order_of_arrival() {
    let registry = registry_of_three();
    let mut w = Watchdog::start(&registry, 50_000, TIMEOUT);
    assert_eq!(w.watched_ids(), &Vec::<i32>::new());
    w.observe(&Command::Seen(3));
    w.observe(&Command::Seen(1));
    assert_eq!(w.watched_ids(), &vec![3, 1]);
    assert_eq!(
        w.sweep(&registry, 50_000),
        Ok(Some(Command::Notify(
            "Clients offline:\n<b>alpha</b>: <code>uuid-a</code>\n<b>gamma</b>: <code>uuid-c</code>"
                .to_string()
        )))
    );
    assert_eq!(w.watched_ids(), &Vec::<i32>::new());
}

#[test]
fn sweep_fails_on_an_id_that_the_registry_lacks() {
    let registry = registry_of_three();
    let mut w = Watchdog::start(&registry, 11_000, TIMEOUT);
    w.observe(&Command::Seen(42));
    w.observe(&Command::Seen(43));
    assert_eq!(w.sweep(&registry, 20_000), Err(WatchdogError::UnknownClient(42)));
    assert_eq!(w.watched_ids(), &vec![1, 2, 3, 42, 43]);
}

#[test]
fn a_sign_of_life_after_going_offline_starts_anew() {
    let mut registry = registry_of_three();
    let mut w = Watchdog::start(&registry, 11_000, TIMEOUT);
    assert!(w.sweep(&registry, 11_501).unwrap().is_some());
    assert!(!w.watches(1));
    registry.touch(1, 12_000);
    w.observe(&Command::Seen(1));
    assert!(w.watches(1));
    assert_eq!(w.sweep(&registry, 12_000), Ok(Some(Command::Notify(
        "Clients offline:\n<b>(no hostname)</b>: <code>uuid-b</code>\n<b>gamma</b>: <code>uuid-c</code>"
            .to_string()
    ))));
    assert_eq!(w.watched_ids(), &vec![1]);
    assert_eq!(
        w.sweep(&registry, 13_501),
        Ok(Some(Command::Notify("Clients offline:\n<b>alpha</b>: <code>uuid-a</code>".to_string())))
    );
}

#[test]
fn round_trip_of_one_client() {
    let mut registry = Registry::new();
    let mut w = Watchdog::start(&registry, 0, TIMEOUT);
    let info = AdditionalInfo::new("A".to_string(), 100);
    let registered = ingest(&mut registry, &event("register", "uuid-a"), &info, 0);
    assert_eq!(registered.command, Some(Command::Notify("A (1: uuid-a) comes online".to_string())));
    let beat = ingest(&mut registry, &event("heartbeat", "uuid-a"), &AdditionalInfo::default(), TIMEOUT - 1);
    let seen = beat.command.unwrap();
    assert_eq!(seen, Command::Seen(1));
    assert_eq!(w.round(&registry, Some(&seen), TIMEOUT - 1), Ok(Round::Swept(None)));
    assert!(w.watches(1));
    assert_eq!(w.round(&registry, None, TIMEOUT), Ok(Round::Swept(None)));
    assert_eq!(w.round(&registry, None, 2 * TIMEOUT - 1), Ok(Round::Swept(None)));
    assert!(w.watches(1));
    assert_eq!(
        w.round(&registry, None, 2 * TIMEOUT),
        Ok(Round::Swept(Some(Command::Notify(
            "Clients offline:\n<b>A</b>: <code>uuid-a</code>".to_string()
        ))))
    );
    assert!(!w.watches(1));
    assert_eq!(w.round(&registry, None, 2 * TIMEOUT + 1), Ok(Round::Swept(None)));
}

#[test]
fn round_stops_on_terminate_without_a_sweep() {
    let registry = registry_of_three();
    let mut w = Watchdog::start(&registry, 11_000, TIMEOUT);
    assert_eq!(w.round(&registry, Some(&Command::Terminate), 99_999), Ok(Round::Stopped));
    assert_eq!(w.watched_ids(), &vec![1, 2, 3]);
}

#[test]
fn round_sweeps_whether_or_not_a_command_came() {
    let registry = registry_of_three();
    let mut w = Watchdog::start(&registry, 11_000, TIMEOUT);
    let out = w.round(&registry, Some(&Command::Notify("x".to_string())), 11_601);
    assert_eq!(
        out,
        Ok(Round::Swept(Some(Command::Notify(
            "Clients offline:\n<b>alpha</b>: <code>uuid-a</code>\n<b>(no hostname)</b>: <code>uuid-b</code>"
                .to_string()
        ))))
    );
    assert_eq!(w.watched_ids(), &vec![3]);
}

#[test]
fn round_fails_where_the_sweep_fails() {
    let registry = registry_of_three();
    let mut w = Watchdog::start(&registry, 11_000, TIMEOUT);
    assert_eq!(
        w.round(&registry, Some(&Command::Seen(9)), 11_000),
        Err(WatchdogError::UnknownClient(9))
    );
    assert_eq!(w.watched_ids(), &vec![1, 2, 3, 9]);
}

#[test]
fn heartbeats_between_sweeps_keep_the_latest_time() {
    let mut registry = Registry::new();
    let info = AdditionalInfo::new("h".to_string(), 1);
    for n in 0..4 {
        ingest(&mut registry, &event("register", &format!("uuid-{}", n)), &info, 100);
    }
    let mut w = Watchdog::start(&registry, 100, TIMEOUT);
    let beats: Vec<(usize, u32)> =
        vec![(0, 300), (1, 250), (2, 900), (0, 200), (3, 101), (1, 800), (2, 400), (0, 350), (3, 100)];
    for (k, (n, t)) in beats.iter().enumerate() {
        let out = ingest(
            &mut registry,
            &event("heartbeat", &format!("uuid-{}", n)),
            &AdditionalInfo::default(),
            *t,
        );
        assert_eq!(out.command, Some(Command::Seen(*n as i32 + 1)));
        if k % 3 == 0 {
            assert_eq!(w.sweep(&registry, 1000), Ok(None));
        }
    }
    assert_eq!(registry.find_by_uuid("uuid-0").unwrap().get_last_seen(), 350);
    assert_eq!(registry.find_by_uuid("uuid-1").unwrap().get_last_seen(), 800);
    assert_eq!(registry.find_by_uuid("uuid-2").unwrap().get_last_seen(), 900);
    assert_eq!(registry.find_by_uuid("uuid-3").unwrap().get_last_seen(), 101);
    assert_eq!(registry.client_count(), 4);
    assert_eq!(w.watched_ids(), &vec![1, 2, 3, 4]);
}
