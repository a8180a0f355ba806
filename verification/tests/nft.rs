use pp::def::Ipv4;
use pp::nft::{add_rules, delete_rules, init_rules, port_entries, RuleQueue, TABLE_NAME, TABLE_PROTO};
use std::collections::HashMap;

fn expected_init(serv_ip: &str) -> String {
    format!("
            add table {proto} {table};
            flush table {proto} {table};

            add map {proto} {table} PORT_TO_PORT {{ type inet_service: inet_service; }};
            add map {proto} {table} PORT_TO_IPV4 {{ type inet_service: ipv4_addr; }};

            add chain {proto} {table} DNAT_CHAIN {{ type nat hook prerouting priority -100; }};
            add chain {proto} {table} SNAT_CHAIN {{ type nat hook postrouting priority 100; }};

            add rule {proto} {table} DNAT_CHAIN dnat tcp dport map @PORT_TO_IPV4: tcp dport map @PORT_TO_PORT;
            add rule {proto} {table} DNAT_CHAIN dnat udp dport map @PORT_TO_IPV4: udp dport map @PORT_TO_PORT;

            add rule {proto} {table} SNAT_CHAIN ip saddr 10.0.0.0/8 ip daddr != 10.0.0.0/8 snat to {pubip};
            ",
            proto = TABLE_PROTO,
            table = TABLE_NAME,
            pubip = serv_ip,
        )
}

fn expected_add(port_map: &[(u16, u16)], vm_ip: &str) -> String {
    let mut port_to_ipv4 = vec![];
    let mut port_to_port = vec![];
    for (vmport, pubport) in port_map {
        port_to_ipv4.push(format!("{}:{}", pubport, vm_ip));
        port_to_port.push(format!("{}:{}", pubport, vmport));
    }
    format!(
            "
            add element {proto} {table} PORT_TO_IPV4 {{ {ptoip} }};
            add element {proto} {table} PORT_TO_PORT {{ {ptop} }};
            ",
            proto = TABLE_PROTO,
            table = TABLE_NAME,
            ptoip = port_to_ipv4.join(","),
            ptop = port_to_port.join(","),
        )
}

fn expected_delete(port_set: &[u16]) -> String {
    format!(
            "
            delete element {proto} {table} PORT_TO_IPV4 {{ {pub_port} }};
            delete element {proto} {table} PORT_TO_PORT {{ {pub_port} }};
            ",
            proto = TABLE_PROTO,
            table = TABLE_NAME,
            pub_port = port_set
                .iter()
                .map(|p| p.to_string())
                .collect::<Vec<_>>()
                .join(","),
        )
}

#[test]
fn init_rules_text() {
    assert_eq!(init_rules("192.168.3.22"), expected_init("192.168.3.22"));
    assert_eq!(TABLE_PROTO, "ip");
    assert_eq!(TABLE_NAME, "pp-core");
}

#[test]
fn add_rules_text_in_given_order() {
    let ip = Ipv4::new("10.0.1.44".to_string());
    let entries = vec![(22u16, 20022u16), (80, 20080)];
    assert_eq!(add_rules(&entries, &ip), expected_add(&entries, "10.0.1.44"));
    assert!(add_rules(&entries, &ip).contains("{ 20022:10.0.1.44,20080:10.0.1.44 }"));
    assert!(add_rules(&entries, &ip).contains("{ 20022:22,20080:80 }"));
}

#[test]
fn delete_rules_text() {
    assert_eq!(delete_rules(&[8080, 9999]), expected_delete(&[8080, 9999]));
    assert!(delete_rules(&[8080, 9999]).contains("PORT_TO_IPV4 { 8080,9999 }"));
}

#[test]
fn port_entries_lists_each_entry_once() {
    let mut m = HashMap::new();
    m.insert(22u16, 30022u16);
    m.insert(80, 30080);
    m.insert(443, 30443);
    let mut e = port_entries(&m);
    assert_eq!(e.len(), 3);
    e.sort();
    assert_eq!(e, vec![(22, 30022), (80, 30080), (443, 30443)]);
    assert!(port_entries(&HashMap::new()).is_empty());
}

#[test]
fn queue_hands_out_what_was_queued_once() {
    let mut q = RuleQueue::new();
    assert_eq!(q.take(), None);
    let ip = Ipv4::new("10.0.0.9".to_string());
    let mut m = HashMap::new();
    m.insert(22u16, 40022u16);
    q.set_rule(&m, &ip);
    q.clean_rule(&[50000]);
    let expected = expected_add(&[(22, 40022)], "10.0.0.9") + &expected_delete(&[50000]);
    assert_eq!(q.take(), Some(expected));
    assert_eq!(q.take(), None);
}

#[test]
fn empty_changes_queue_nothing() {
    let mut q = RuleQueue::new();
    q.set_rule(&HashMap::new(), &Ipv4::new("10.0.0.1".to_string()));
    q.clean_rule(&[]);
    assert_eq!(q.take(), None);
}

fn elements(text: &str, map: &str) -> Vec<String> {
    let head = format!("{} {{ ", map);
    let start = text.find(&head).unwrap() + head.len();
    let end = start + text[start..].find(" }").unwrap();
    text[start..end].split(',').map(|s| s.to_string()).collect()
}

#[test]
fn clean_rule_names_the_keys_set_rule_added() {
    let ip = Ipv4::new("10.0.2.7".to_string());
    let entries = vec![(22u16, 21022u16), (3389, 23389)];
    let added = add_rules(&entries, &ip);
    let ports: Vec<u16> = entries.iter().map(|e| e.1).collect();
    let deleted = delete_rules(&ports);
    let del_keys = elements(&deleted, "PORT_TO_IPV4");
    assert_eq!(elements(&deleted, "PORT_TO_PORT"), del_keys);
    for map in ["PORT_TO_IPV4", "PORT_TO_PORT"] {
        let keys: Vec<String> =
            elements(&added, map).iter().map(|e| e.split(':').next().unwrap().to_string()).collect();
        assert_eq!(keys, del_keys);
    }
    // Applied to maps that lacked these ports, add then delete leaves them as they were.
    let mut table: HashMap<String, String> = HashMap::new();
    table.insert("9000".to_string(), "10.0.0.3".to_string());
    let before = table.clone();
    for e in elements(&added, "PORT_TO_IPV4") {
        let (k, v) = e.split_once(':').unwrap();
        table.insert(k.to_string(), v.to_string());
    }
    assert_eq!(table.get("21022").map(|s| s.as_str()), Some("10.0.2.7"));
    for k in del_keys {
        table.remove(&k);
    }
    assert_eq!(table, before);
}

#[test]
fn interleaved_changes_handed_out_once_in_order() {
    let mut q = RuleQueue::new();
    let ip = Ipv4::new("10.0.0.5".to_string());
    let mut m = HashMap::new();
    m.insert(80u16, 30080u16);
    q.set_rule(&m, &ip);
    let first = q.take();
    q.clean_rule(&[30080]);
    q.clean_rule(&[]);
    q.set_rule(&m, &ip);
    let second = q.take();
    let third = q.take();
    assert_eq!(first, Some(expected_add(&[(80, 30080)], "10.0.0.5")));
    assert_eq!(
        second,
        Some(expected_delete(&[30080]) + &expected_add(&[(80, 30080)], "10.0.0.5"))
    );
    assert_eq!(third, None);
}

#[test]
fn clean_rule_in_any_order_restores_the_maps() {
    let ip = Ipv4::new("10.0.3.3".to_string());
    let mut m = HashMap::new();
    m.insert(22u16, 22022u16);
    m.insert(80, 22080);
    m.insert(443, 22443);
    let added = add_rules(&port_entries(&m), &ip);
    let mut ports: Vec<u16> = m.values().copied().collect();
    ports.sort();
    ports.reverse();
    let deleted = delete_rules(&ports);
    for map in ["PORT_TO_IPV4", "PORT_TO_PORT"] {
        let mut table: HashMap<String, String> = HashMap::new();
        table.insert("1".to_string(), "x".to_string());
        let before = table.clone();
        for e in elements(&added, map) {
            let (k, v) = e.split_once(':').unwrap();
            table.insert(k.to_string(), v.to_string());
        }
        assert_eq!(table.len(), 4);
        for k in elements(&deleted, map) {
            table.remove(&k);
        }
        assert_eq!(table, before);
    }
}
