use auto_bencher::connections::ConnectionInfo;
use auto_bencher::error::BenchError;

fn ips(list: &[&str]) -> Vec<String> {
    list.iter().map(|ip| ip.to_string()).collect()
}

#[test]
fn test_connection_list() {
    let ip_list = vec![
        "192.168.1.1".to_owned(),
        "192.168.1.2".to_owned(),
        "192.168.1.3".to_owned(),
    ];
    let list = ConnectionInfo::generate_connection_list(&ip_list, 5, 2).unwrap();

    let expected = vec![
        ConnectionInfo { id: 0, ip: "192.168.1.1".to_owned(), port: 30000 },
        ConnectionInfo { id: 1, ip: "192.168.1.2".to_owned(), port: 30000 },
        ConnectionInfo { id: 2, ip: "192.168.1.3".to_owned(), port: 30000 },
        ConnectionInfo { id: 3, ip: "192.168.1.1".to_owned(), port: 30001 },
        ConnectionInfo { id: 4, ip: "192.168.1.2".to_owned(), port: 30001 },
    ];

    assert_eq!(&list, &expected);
}

#[test]
fn placement_fails_without_room() {
    let pool = ips(&["A", "B"]);
    match ConnectionInfo::generate_connection_list(&pool, 5, 2) {
        Err(BenchError::Message(message)) => {
            assert_eq!(message, "The number of machines is not enough.")
        }
        other => panic!("unexpected: {:?}", other),
    }
}

#[test]
fn placement_fills_the_last_round() {
    let pool = ips(&["A", "B"]);
    let list = ConnectionInfo::generate_connection_list(&pool, 4, 2).unwrap();
    assert_eq!(list.len(), 4);
    assert_eq!(list[3], ConnectionInfo { id: 3, ip: "B".to_owned(), port: 30001 });
}

#[test]
fn placement_of_no_node_is_empty() {
    let pool = ips(&["A"]);
    assert_eq!(ConnectionInfo::generate_connection_list(&pool, 0, 0).unwrap(), vec![]);
    assert_eq!(ConnectionInfo::generate_connection_list(&Vec::new(), 0, 3).unwrap(), vec![]);
}

#[test]
fn placement_needs_a_machine() {
    assert!(ConnectionInfo::generate_connection_list(&Vec::new(), 1, 3).is_err());
    let pool = ips(&["A", "B", "C"]);
    assert!(ConnectionInfo::generate_connection_list(&pool, 2, 0).is_err());
}

#[test]
fn placement_is_the_same_every_time() {
    let pool = ips(&["A", "B", "C"]);
    let first = ConnectionInfo::generate_connection_list(&pool, 5, 2).unwrap();
    let second = ConnectionInfo::generate_connection_list(&pool, 5, 2).unwrap();
    assert_eq!(first, second);
    let hosts: Vec<(usize, &str, usize)> =
        first.iter().map(|node| (node.id, node.ip.as_str(), node.port)).collect();
    assert_eq!(
        hosts,
        vec![(0, "A", 30000), (1, "B", 30000), (2, "C", 30000), (3, "A", 30001), (4, "B", 30001)]
    );
}

#[test]
fn node_as_entry_of_a_view() {
    let node = ConnectionInfo { id: 12, ip: "10.0.0.7".to_owned(), port: 30001 };
    assert_eq!(node.to_string(), "12 10.0.0.7 30001");
}
