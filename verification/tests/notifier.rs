use probe_server::admin::admin_query;
use probe_server::command::{Command, Receiver};
use probe_server::message::{hostname_or_default, offline_message, online_message, DEFAULT_HOSTNAME};
use probe_server::database::ClientRow;
use probe_server::notifier::{deliver, drain, Delivery};
use probe_server::registry::Registry;
use probe_server::structs::{AdminRequest, ErrorCodes};

#[test]
fn command_new_is_a_notification() {
    assert_eq!(Command::new("hello".to_string()), Command::Notify("hello".to_string()));
    assert_eq!(Command::new(String::new()), Command::Notify(String::new()));
}

#[test]
fn command_clone_is_the_same_command() {
    assert_eq!(Command::Notify("a".to_string()).clone(), Command::Notify("a".to_string()));
    assert_eq!(Command::Seen(4).clone(), Command::Seen(4));
    assert_eq!(Command::Terminate.clone(), Command::Terminate);
}

#[test]
fn commands_go_to_their_receivers() {
    assert_eq!(Command::Notify("a".to_string()).receiver(), Receiver::Notifier);
    assert_eq!(Command::Seen(1).receiver(), Receiver::Watchdog);
    assert_eq!(Command::Terminate.receiver(), Receiver::Both);
}

#[test]
fn deliver_sends_notifications() {
    assert_eq!(deliver(Command::Notify("text".to_string())), Delivery::Send("text".to_string()));
}

#[test]
fn deliver_passes_over_signs_of_life() {
    assert_eq!(deliver(Command::Seen(3)), Delivery::Skip);
}

#[test]
fn deliver_stops_on_terminate() {
    assert_eq!(deliver(Command::Terminate), Delivery::Stop);
}

#[test]
fn drain_sends_in_order_up_to_terminate() {
    let queue = vec![
        Command::Notify("one".to_string()),
        Command::Seen(1),
        Command::Notify("two".to_string()),
        Command::Notify("two".to_string()),
        Command::Terminate,
        Command::Notify("three".to_string()),
    ];
    assert_eq!(drain(&queue), vec!["one".to_string(), "two".to_string(), "two".to_string()]);
}

#[test]
fn drain_without_terminate_sends_everything() {
    let queue = vec![Command::Notify("one".to_string()), Command::Notify("two".to_string())];
    assert_eq!(drain(&queue), vec!["one".to_string(), "two".to_string()]);
    assert_eq!(drain(&Vec::new()), Vec::<String>::new());
    assert_eq!(drain(&vec![Command::Terminate]), Vec::<String>::new());
}

#[test]
fn default_hostname_is_fixed() {
    assert_eq!(DEFAULT_HOSTNAME, "(no hostname)");
}

#[test]
fn hostname_falls_back_to_the_placeholder() {
    assert_eq!(hostname_or_default(Some("alpha")), "alpha");
    assert_eq!(hostname_or_default(Some("")), "(no hostname)");
    assert_eq!(hostname_or_default(None), "(no hostname)");
    assert_eq!(hostname_or_default(Some(" ")), " ");
}

#[test]
fn online_message_names_host_id_and_uuid() {
    assert_eq!(online_message("alpha", 1, "uuid-a"), "alpha (1: uuid-a) comes online");
    assert_eq!(
        online_message("(no hostname)", 2147483647, "u"),
        "(no hostname) (2147483647: u) comes online"
    );
    assert_eq!(online_message("h", -12, ""), "h (-12: ) comes online");
}

#[test]
fn offline_message_lists_one_client_per_line() {
    let rows = vec![
        ClientRow::new(1, "uuid-a".to_string(), 0, 0, Some("alpha".to_string())),
        ClientRow::new(2, "uuid-b".to_string(), 0, 0, None),
        ClientRow::new(3, "uuid-c".to_string(), 0, 0, Some(String::new())),
    ];
    assert_eq!(
        offline_message(&rows),
        "Clients offline:\n<b>alpha</b>: <code>uuid-a</code>\n<b>(no hostname)</b>: <code>uuid-b</code>\n<b>(no hostname)</b>: <code>uuid-c</code>"
    );
    assert_eq!(
        offline_message(&rows[..1].to_vec()),
        "Clients offline:\n<b>alpha</b>: <code>uuid-a</code>"
    );
    assert_eq!(offline_message(&Vec::new()), "Clients offline:\n");
}

#[test]
fn admin_query_lists_the_clients_seen_within_the_timeout() {
    let mut registry = Registry::new();
    registry.register("uuid-a", 1, None, 1000).unwrap();
    registry.register("uuid-b", 2, Some("beta".to_string()), 2000).unwrap();
    registry.register("uuid-c", 3, None, 3000).unwrap();
    let query = AdminRequest::new("query".to_string());
    let ids = |now: u32| -> Vec<i32> {
        admin_query(&registry, &query, now, 1500).unwrap().result.iter().map(|r| r.get_id()).collect()
    };
    assert_eq!(ids(2499), vec![1, 2, 3]);
    assert_eq!(ids(2500), vec![2, 3]);
    assert_eq!(ids(3500), vec![3]);
    assert_eq!(ids(4500), Vec::<i32>::new());
    assert_eq!(ids(0), vec![1, 2, 3]);
    let rows = admin_query(&registry, &query, 3000, 1500).unwrap().result;
    assert_eq!(rows[0].get_uuid(), "uuid-b");
    assert_eq!(rows[0].get_hostname(), &Some("beta".to_string()));
    assert_eq!(rows[0].get_boot_time(), 2);
    assert_eq!(rows[0].get_last_seen(), 2000);
}

#[test]
fn admin_query_refuses_other_actions() {
    let registry = Registry::new();
    let r = admin_query(&registry, &AdminRequest::new("delete".to_string()), 0, 1500);
    assert_eq!(r.err(), Some(ErrorCodes::UnsupportedMethod));
    let r = admin_query(&registry, &AdminRequest::new("Query".to_string()), 0, 1500);
    assert_eq!(r.err(), Some(ErrorCodes::UnsupportedMethod));
    let r = admin_query(&registry, &AdminRequest::new(String::new()), 0, 1500);
    assert_eq!(r.err(), Some(ErrorCodes::UnsupportedMethod));
}
