//! The NAT rules of a Linux server: the nftables table that maps public
//! ports to the ports of the VMs, and the queue of rule changes that a
//! worker hands to `nft` in one batch.
use crate::def::Ipv4;
use crate::text::{
    concat, concat_strs, decimal, decimal_string, join, join_strings, push_decimal,
};
use std::collections::HashMap;
use vstd::prelude::*;
use vstd::std_specs::hash::*;
use vstd::std_specs::iter::IteratorSpec;

verus! {

broadcast use group_hash_axioms;

/// The address family of the table.
pub const TABLE_PROTO: &'static str = "ip";

/// The name of the table.
pub const TABLE_NAME: &'static str = "pp-core";

/// Whether `entries` lists each entry of `m` once, in some order.
pub open spec fn lists_entries(entries: Seq<(u16, u16)>, m: Map<u16, u16>) -> bool {
    &&& entries.len() == m.len()
    &&& forall|i: int| 0 <= i < entries.len() ==> #[trigger] m.contains_key(entries[i].0) && m[entries[i].0] == entries[i].1
    &&& forall|i: int, j: int| 0 <= i < j < entries.len() ==> entries[i].0 != entries[j].0
    &&& forall|k: u16| #[trigger] m.contains_key(k) ==> exists|i: int| 0 <= i < entries.len() && entries[i].0 == k
}

/// `ip pp-core`: the family and name of the table, as nft commands name it.
pub open spec fn table_ref() -> Seq<char> {
    TABLE_PROTO@ + " "@ + TABLE_NAME@
}

/// The nft commands that (re)create the table: two maps from public port
/// to VM address and to VM port, the DNAT rules that consult them, and the
/// SNAT rule that sends traffic of `10.0.0.0/8` out as `serv_ip`.
pub open spec fn init_rules_text(serv_ip: Seq<char>) -> Seq<char> {
    let t = table_ref();
    concat(
        seq![
            "\n            add table "@,
            t,
            ";\n            flush table "@,
            t,
            ";\n\n            add map "@,
            t,
            " PORT_TO_PORT { type inet_service: inet_service; };\n            add map "@,
            t,
            " PORT_TO_IPV4 { type inet_service: ipv4_addr; };\n\n            add chain "@,
            t,
            " DNAT_CHAIN { type nat hook prerouting priority -100; };\n            add chain "@,
            t,
            " SNAT_CHAIN { type nat hook postrouting priority 100; };\n\n            add rule "@,
            t,
            " DNAT_CHAIN dnat tcp dport map @PORT_TO_IPV4: tcp dport map @PORT_TO_PORT;\n            add rule "@,
            t,
            " DNAT_CHAIN dnat udp dport map @PORT_TO_IPV4: udp dport map @PORT_TO_PORT;\n\n            add rule "@,
            t,
            " SNAT_CHAIN ip saddr 10.0.0.0/8 ip daddr != 10.0.0.0/8 snat to "@,
            serv_ip,
            ";\n            "@,
        ],
    )
}

/// `public:vm_ip` for each entry (VM port, public port).
pub open spec fn port_to_ipv4_items(entries: Seq<(u16, u16)>, ip: Seq<char>) -> Seq<Seq<char>> {
    entries.map_values(|e: (u16, u16)| decimal(e.1 as nat) + ":"@ + ip)
}

/// `public:vm_port` for each entry (VM port, public port).
pub open spec fn port_to_port_items(entries: Seq<(u16, u16)>) -> Seq<Seq<char>> {
    entries.map_values(|e: (u16, u16)| decimal(e.1 as nat) + ":"@ + decimal(e.0 as nat))
}

/// The nft commands that add `entries` (pairs of VM port and public port)
/// of a VM at `ip` to the two maps of the table.
pub open spec fn add_rules_text(entries: Seq<(u16, u16)>, ip: Seq<char>) -> Seq<char> {
    let t = table_ref();
    concat(
        seq![
            "\n            add element "@,
            t,
            " PORT_TO_IPV4 { "@,
            join(port_to_ipv4_items(entries, ip), ","@),
            " };\n            add element "@,
            t,
            " PORT_TO_PORT { "@,
            join(port_to_port_items(entries), ","@),
            " };\n            "@,
        ],
    )
}

/// The nft commands that delete the public `ports` from both maps.
pub open spec fn delete_rules_text(ports: Seq<u16>) -> Seq<char> {
    let t = table_ref();
    let list = join(ports.map_values(|p: u16| decimal(p as nat)), ","@);
    concat(
        seq![
            "\n            delete element "@,
            t,
            " PORT_TO_IPV4 { "@,
            list,
            " };\n            delete element "@,
            t,
            " PORT_TO_PORT { "@,
            list,
            " };\n            "@,
        ],
    )
}

fn table_ref_string() -> (res: String)
    ensures
        res@ == table_ref(),
{
    let v = vec![TABLE_PROTO, " ", TABLE_NAME];
    let res = concat_strs(&v);
    proof {
        let views = v@.map_values(|p: &str| p@);
        assert(views =~= seq![TABLE_PROTO@, " "@, TABLE_NAME@]);
        reveal_with_fuel(concat, 4);
        assert(views.drop_last().drop_last().drop_last() =~= Seq::<Seq<char>>::empty());
        assert(views.drop_last().drop_last() =~= seq![TABLE_PROTO@]);
        assert(views.drop_last() =~= seq![TABLE_PROTO@, " "@]);
        assert(concat(views) =~= table_ref());
    }
    res
}

/// The nft commands that set the table up for a server whose public
/// address is `serv_ip`.
pub fn init_rules(serv_ip: &str) -> (res: String)
    ensures
        res@ == init_rules_text(serv_ip@),
{
    let t = table_ref_string();
    let ts = t.as_str();
    let v = vec![
        "\n            add table ",
        ts,
        ";\n            flush table ",
        ts,
        ";\n\n            add map ",
        ts,
        " PORT_TO_PORT { type inet_service: inet_service; };\n            add map ",
        ts,
        " PORT_TO_IPV4 { type inet_service: ipv4_addr; };\n\n            add chain ",
        ts,
        " DNAT_CHAIN { type nat hook prerouting priority -100; };\n            add chain ",
        ts,
        " SNAT_CHAIN { type nat hook postrouting priority 100; };\n\n            add rule ",
        ts,
        " DNAT_CHAIN dnat tcp dport map @PORT_TO_IPV4: tcp dport map @PORT_TO_PORT;\n            add rule ",
        ts,
        " DNAT_CHAIN dnat udp dport map @PORT_TO_IPV4: udp dport map @PORT_TO_PORT;\n\n            add rule ",
        ts,
        " SNAT_CHAIN ip saddr 10.0.0.0/8 ip daddr != 10.0.0.0/8 snat to ",
        serv_ip,
        ";\n            ",
    ];
    let res = concat_strs(&v);
    proof {
        let tv = table_ref();
        assert(v@.map_values(|p: &str| p@) =~= seq![
            "\n            add table "@,
            tv,
            ";\n            flush table "@,
            tv,
            ";\n\n            add map "@,
            tv,
            " PORT_TO_PORT { type inet_service: inet_service; };\n            add map "@,
            tv,
            " PORT_TO_IPV4 { type inet_service: ipv4_addr; };\n\n            add chain "@,
            tv,
            " DNAT_CHAIN { type nat hook prerouting priority -100; };\n            add chain "@,
            tv,
            " SNAT_CHAIN { type nat hook postrouting priority 100; };\n\n            add rule "@,
            tv,
            " DNAT_CHAIN dnat tcp dport map @PORT_TO_IPV4: tcp dport map @PORT_TO_PORT;\n            add rule "@,
            tv,
            " DNAT_CHAIN dnat udp dport map @PORT_TO_IPV4: udp dport map @PORT_TO_PORT;\n\n            add rule "@,
            tv,
            " SNAT_CHAIN ip saddr 10.0.0.0/8 ip daddr != 10.0.0.0/8 snat to "@,
            serv_ip@,
            ";\n            "@,
        ]);
    }
    res
}

/// The entries of `port_map`, each once, in the order the map hands them out.
pub fn port_entries(port_map: &HashMap<u16, u16>) -> (n: Vec<(u16, u16)>)
    ensures lists_entries(n@, port_map@),
{
    let mut n: Vec<(u16, u16)> = Vec::new();
    for (vmport, pubport) in it: port_map.iter()
        invariant
            n@ == it.seq().subrange(0, it.index() as int).map_values(|p: (&u16, &u16)| (*p.0, *p.1)),
            it.seq() == spec_hash_map_iter(port_map).remaining(),
            it.seq().no_duplicates(),
            it.seq().len() == port_map@.len(),
            forall|i: int| 0 <= i < it.seq().len() ==> #[trigger] port_map@.contains_key(*it.seq()[i].0) && port_map@[*it.seq()[i].0] == *it.seq()[i].1,
            forall|i: int, j: int| 0 <= i < j < n@.len() ==> n@[i].0 != n@[j].0,
            forall|k: u16| #[trigger] port_map@.contains_key(k) ==>
                (exists|i: int| 0 <= i < n@.len() && n@[i].0 == k)
                || (exists|i: int| it.index() <= i < it.seq().len() && *it.seq()[i].0 == k),
    {
        proof {
            let s = it.seq();
            let x = it.index() as int;
            assert(*s[x].0 == *vmport);
            assert(*s[x].1 == *pubport);
            assert forall|i: int| 0 <= i < x implies *s[i].0 != *vmport by {
                if *s[i].0 == *vmport {
                    assert(port_map@.contains_key(*s[i].0));
                    assert(port_map@.contains_key(*s[x].0));
                    assert(*s[i].1 == *s[x].1);
                    assert(s[i] == s[x]);
                }
            }
        }
        let ghost before = n@;
        n.push((*vmport, *pubport));
        proof {
            let s = it.seq();
            let x = it.index() as int;
            assert forall|k: u16| #[trigger] port_map@.contains_key(k) implies
                (exists|i: int| 0 <= i < n@.len() && n@[i].0 == k)
                || (exists|i: int| x + 1 <= i < s.len() && *s[i].0 == k) by {
                if exists|i: int| 0 <= i < before.len() && before[i].0 == k {
                    let i = choose|i: int| 0 <= i < before.len() && before[i].0 == k;
                    assert(n@[i] == before[i]);
                } else {
                    let i = choose|i: int| x <= i < s.len() && *s[i].0 == k;
                    if i == x {
                        assert(n@[x].0 == k);
                    }
                }
            }
        }
    }
    n
}

/// The nft commands that add `entries` (VM port, public port), taken in
/// this order, for the VM at `vm_ip`.
pub fn add_rules(entries: &Vec<(u16, u16)>, vm_ip: &Ipv4) -> (res: String)
    ensures
        res@ == add_rules_text(entries@, vm_ip@),
{
    let mut to_ipv4: Vec<String> = Vec::new();
    let mut to_port: Vec<String> = Vec::new();
    let mut i: usize = 0;
    while i < entries.len()
        invariant
            i <= entries.len(),
            to_ipv4@.map_values(|p: String| p@) == port_to_ipv4_items(entries@.subrange(0, i as int), vm_ip@),
            to_port@.map_values(|p: String| p@) == port_to_port_items(entries@.subrange(0, i as int)),
        decreases entries.len() - i,
    {
        let (vmport, pubport) = entries[i];
        let mut a = decimal_string(pubport as u64);
        a.append(":");
        a.append(vm_ip.as_str());
        let mut b = decimal_string(pubport as u64);
        b.append(":");
        push_decimal(&mut b, vmport as u64);
        let ghost old_a = to_ipv4@;
        let ghost old_b = to_port@;
        to_ipv4.push(a);
        to_port.push(b);
        proof {
            let e = entries@.subrange(0, i + 1);
            assert(e =~= entries@.subrange(0, i as int).push(entries@[i as int]));
            assert(to_ipv4@ == old_a.push(a));
            assert(to_ipv4@.map_values(|p: String| p@) =~= old_a.map_values(|p: String| p@).push(a@));
            assert(to_port@.map_values(|p: String| p@) =~= old_b.map_values(|p: String| p@).push(b@));
            assert(port_to_ipv4_items(e, vm_ip@) =~= port_to_ipv4_items(entries@.subrange(0, i as int), vm_ip@).push(a@));
            assert(port_to_port_items(e) =~= port_to_port_items(entries@.subrange(0, i as int)).push(b@));
            assert(to_ipv4@.map_values(|p: String| p@) =~= port_to_ipv4_items(e, vm_ip@));
            assert(to_port@.map_values(|p: String| p@) =~= port_to_port_items(e));
        }
        i = i + 1;
    }
    proof {
        assert(entries@.subrange(0, entries.len() as int) =~= entries@);
    }
    let ipv4_list = join_strings(&to_ipv4, ",");
    let port_list = join_strings(&to_port, ",");
    let t = table_ref_string();
    let ts = t.as_str();
    let v = vec![
        "\n            add element ",
        ts,
        " PORT_TO_IPV4 { ",
        ipv4_list.as_str(),
        " };\n            add element ",
        ts,
        " PORT_TO_PORT { ",
        port_list.as_str(),
        " };\n            ",
    ];
    let res = concat_strs(&v);
    proof {
        let tv = table_ref();
        assert(v@.map_values(|p: &str| p@) =~= seq![
            "\n            add element "@,
            tv,
            " PORT_TO_IPV4 { "@,
            join(port_to_ipv4_items(entries@, vm_ip@), ","@),
            " };\n            add element "@,
            tv,
            " PORT_TO_PORT { "@,
            join(port_to_port_items(entries@), ","@),
            " };\n            "@,
        ]);
    }
    res
}

/// The nft commands that delete the public `ports` from both maps.
pub fn delete_rules(ports: &[u16]) -> (res: String)
    ensures
        res@ == delete_rules_text(ports@),
{
    let mut items: Vec<String> = Vec::new();
    let mut i: usize = 0;
    while i < ports.len()
        invariant
            i <= ports.len(),
            items@.map_values(|p: String| p@) == ports@.subrange(0, i as int).map_values(
                |p: u16| decimal(p as nat),
            ),
        decreases ports.len() - i,
    {
        let d = decimal_string(ports[i] as u64);
        let ghost old_items = items@;
        items.push(d);
        proof {
            assert(items@.map_values(|p: String| p@) =~= old_items.map_values(|p: String| p@).push(d@));
            assert(ports@.subrange(0, i + 1) =~= ports@.subrange(0, i as int).push(ports@[i as int]));
            assert(items@.map_values(|p: String| p@) =~= ports@.subrange(0, i + 1).map_values(
                |p: u16| decimal(p as nat),
            ));
        }
        i = i + 1;
    }
    proof {
        assert(ports@.subrange(0, ports.len() as int) =~= ports@);
    }
    let list = join_strings(&items, ",");
    let t = table_ref_string();
    let ts = t.as_str();
    let v = vec![
        "\n            delete element ",
        ts,
        " PORT_TO_IPV4 { ",
        list.as_str(),
        " };\n            delete element ",
        ts,
        " PORT_TO_PORT { ",
        list.as_str(),
        " };\n            ",
    ];
    let res = concat_strs(&v);
    proof {
        let tv = table_ref();
        let l = join(ports@.map_values(|p: u16| decimal(p as nat)), ","@);
        assert(v@.map_values(|p: &str| p@) =~= seq![
            "\n            delete element "@,
            tv,
            " PORT_TO_IPV4 { "@,
            l,
            " };\n            delete element "@,
            tv,
            " PORT_TO_PORT { "@,
            l,
            " };\n            "@,
        ]);
    }
    res
}

/// The rule changes waiting for the worker that applies them: nft
/// refuses concurrent changes now and then, so they are gathered here and
/// applied in one batch.
pub struct RuleQueue {
    pending: String,
}

impl View for RuleQueue {
    type V = Seq<char>;

    closed spec fn view(&self) -> Seq<char> {
        self.pending@
    }
}

impl RuleQueue {
    /// An empty queue.
    pub fn new() -> (res: RuleQueue)
        ensures
            res@ == Seq::<char>::empty(),
    {
        RuleQueue { pending: String::new() }
    }

    /// Queues the rules that map each public port of `port_map` to its VM
    /// port on `vm_ip`; an empty map queues nothing. The entries are taken
    /// in the order the map hands them out, each once.
    pub fn set_rule(&mut self, port_map: &HashMap<u16, u16>, vm_ip: &Ipv4)
        ensures
            port_map@.len() == 0 ==> final(self)@ == old(self)@,
            port_map@.len() > 0 ==> exists|entries: Seq<(u16, u16)>|
                #[trigger] lists_entries(entries, port_map@)
                && final(self)@ == old(self)@ + add_rules_text(entries, vm_ip@),
    {
        if port_map.is_empty() {
            return;
        }
        let entries = port_entries(port_map);
        let text = add_rules(&entries, vm_ip);
        self.pending.append(text.as_str());
    }

    /// Queues the rules that drop the public ports `port_set`; an empty set
    /// queues nothing.
    pub fn clean_rule(&mut self, port_set: &[u16])
        ensures
            port_set@.len() == 0 ==> final(self)@ == old(self)@,
            port_set@.len() > 0 ==> final(self)@ == old(self)@ + delete_rules_text(port_set@),
    {
        if port_set.len() == 0 {
            return;
        }
        let text = delete_rules(port_set);
        self.pending.append(text.as_str());
    }

    /// Takes every queued change, leaving the queue empty: `None` where
    /// nothing was queued.
    pub fn take(&mut self) -> (res: Option<String>)
        ensures
            final(self)@ == Seq::<char>::empty(),
            old(self)@.len() == 0 ==> res is None,
            old(self)@.len() > 0 ==> (res matches Some(t) && t@ == old(self)@),
    {
        let mut t = String::new();
        std::mem::swap(&mut t, &mut self.pending);
        if t.as_str().unicode_len() == 0 {
            None
        } else {
            Some(t)
        }
    }
}


/// The public ports of a list of entries (VM port, public port), in order.
pub open spec fn public_ports(entries: Seq<(u16, u16)>) -> Seq<u16> {
    entries.map_values(|e: (u16, u16)| e.1)
}

/// The key of a map element written `key:value`: the text before the first
/// `:` (the whole text where there is none).
pub open spec fn element_key(item: Seq<char>) -> Seq<char>
    decreases item.len(),
{
    if item.len() == 0 {
        item
    } else if item[0] == ':' {
        Seq::empty()
    } else {
        seq![item[0]] + element_key(item.drop_first())
    }
}

/// The value of a map element written `key:value`: the text after the
/// first `:`.
pub open spec fn element_value(item: Seq<char>) -> Seq<char>
    decreases item.len(),
{
    if item.len() == 0 {
        item
    } else if item[0] == ':' {
        item.drop_first()
    } else {
        element_value(item.drop_first())
    }
}

/// A map of the table, keyed by the text of its keys, after `add element`
/// with `items` (each `key:value`), one after the other.
pub open spec fn add_elements(m: Map<Seq<char>, Seq<char>>, items: Seq<Seq<char>>) -> Map<Seq<char>, Seq<char>>
    decreases items.len(),
{
    if items.len() == 0 {
        m
    } else {
        add_elements(m, items.drop_last()).insert(element_key(items.last()), element_value(items.last()))
    }
}

/// A map of the table after `delete element` with `keys`.
pub open spec fn delete_elements(m: Map<Seq<char>, Seq<char>>, keys: Seq<Seq<char>>) -> Map<Seq<char>, Seq<char>>
    decreases keys.len(),
{
    if keys.len() == 0 {
        m
    } else {
        delete_elements(m, keys.drop_last()).remove(keys.last())
    }
}

proof fn lemma_element_parts(k: Seq<char>, v: Seq<char>)
    requires
        forall|i: int| 0 <= i < k.len() ==> #[trigger] k[i] != ':',
    ensures
        element_key(k + ":"@ + v) == k,
        element_value(k + ":"@ + v) == v,
    decreases k.len(),
{
    reveal_strlit(":");
    let item = k + ":"@ + v;
    if k.len() == 0 {
        assert(item =~= seq![':'] + v);
        assert(item.drop_first() =~= v);
    } else {
        let k2 = k.drop_first();
        assert(item.drop_first() =~= k2 + ":"@ + v);
        lemma_element_parts(k2, v);
        assert(k =~= seq![k[0]] + k2);
    }
}

proof fn lemma_add_elements(m: Map<Seq<char>, Seq<char>>, items: Seq<Seq<char>>)
    ensures
        forall|i: int| 0 <= i < items.len() ==> add_elements(m, items).contains_key(#[trigger] element_key(items[i])),
        forall|k: Seq<char>| (forall|i: int| 0 <= i < items.len() ==> element_key(#[trigger] items[i]) != k) ==> (
            #[trigger] add_elements(m, items).contains_key(k) == m.contains_key(k)
            && add_elements(m, items)[k] == m[k]),
    decreases items.len(),
{
    if items.len() > 0 {
        let rest = items.drop_last();
        lemma_add_elements(m, rest);
        assert(add_elements(m, items) == add_elements(m, rest).insert(
            element_key(items[items.len() - 1]),
            element_value(items[items.len() - 1]),
        ));
        assert forall|i: int| 0 <= i < items.len() implies add_elements(m, items).contains_key(#[trigger] element_key(items[i])) by {
            if i < items.len() - 1 {
                assert(rest[i] == items[i]);
            }
        }
        assert forall|k: Seq<char>| (forall|i: int| 0 <= i < items.len() ==> element_key(#[trigger] items[i]) != k) implies (
            #[trigger] add_elements(m, items).contains_key(k) == m.contains_key(k)
            && add_elements(m, items)[k] == m[k]) by {
            assert(element_key(items[items.len() - 1]) != k);
            assert forall|i: int| 0 <= i < rest.len() implies element_key(#[trigger] rest[i]) != k by {
                assert(rest[i] == items[i]);
            }
        }
    }
}

proof fn lemma_delete_elements(m: Map<Seq<char>, Seq<char>>, keys: Seq<Seq<char>>)
    ensures
        forall|k: Seq<char>| #[trigger] delete_elements(m, keys).contains_key(k) == (m.contains_key(k) && !keys.contains(k)),
        forall|k: Seq<char>| #[trigger] delete_elements(m, keys).contains_key(k) ==> delete_elements(m, keys)[k] == m[k],
    decreases keys.len(),
{
    if keys.len() > 0 {
        let rest = keys.drop_last();
        lemma_delete_elements(m, rest);
        assert(delete_elements(m, keys) == delete_elements(m, rest).remove(keys[keys.len() - 1]));
        assert forall|k: Seq<char>| #[trigger] delete_elements(m, keys).contains_key(k) == (m.contains_key(k) && !keys.contains(k)) by {
            if rest.contains(k) {
                let i = choose|i: int| 0 <= i < rest.len() && rest[i] == k;
                assert(keys[i] == k);
            }
            if keys.contains(k) && k != keys.last() {
                let i = choose|i: int| 0 <= i < keys.len() && keys[i] == k;
                assert(rest[i] == k);
            }
        }
    }
}

proof fn lemma_delete_undoes_add(m: Map<Seq<char>, Seq<char>>, items: Seq<Seq<char>>, keys: Seq<Seq<char>>)
    requires
        forall|i: int| 0 <= i < items.len() ==> keys.contains(#[trigger] element_key(items[i])),
        forall|j: int| 0 <= j < keys.len() ==> !m.contains_key(#[trigger] keys[j]),
    ensures
        delete_elements(add_elements(m, items), keys) == m,
{
    let a = add_elements(m, items);
    let d = delete_elements(a, keys);
    lemma_add_elements(m, items);
    lemma_delete_elements(a, keys);
    assert forall|k: Seq<char>| #[trigger] d.contains_key(k) == m.contains_key(k) by {
        if keys.contains(k) {
            let j = choose|j: int| 0 <= j < keys.len() && keys[j] == k;
            assert(!m.contains_key(keys[j]));
        } else {
            assert forall|i: int| 0 <= i < items.len() implies element_key(#[trigger] items[i]) != k by {
                assert(keys.contains(element_key(items[i])));
            }
            assert(a.contains_key(k) == m.contains_key(k));
        }
    }
    assert forall|k: Seq<char>| d.contains_key(k) implies #[trigger] d[k] == m[k] by {
        assert(!keys.contains(k));
        assert forall|i: int| 0 <= i < items.len() implies element_key(#[trigger] items[i]) != k by {
            assert(keys.contains(element_key(items[i])));
        }
    }
    assert(d =~= m);
}

/// Deleting the public ports of a `set_rule` removes exactly what it added,
/// whatever order the ports are named in: every element that the add
/// statements write into `PORT_TO_IPV4` and `PORT_TO_PORT` is keyed by the
/// decimal text of a public port, and the delete statements for `ports`
/// (the same public ports, each at least once, in any order) name exactly
/// those texts; so on maps that held none of those ports, adding and then
/// deleting leaves both maps as they were.
pub proof fn law_clean_undoes_set(
    entries: Seq<(u16, u16)>,
    ip: Seq<char>,
    ports: Seq<u16>,
    to_ipv4: Map<Seq<char>, Seq<char>>,
    to_port: Map<Seq<char>, Seq<char>>,
)
    requires
        forall|p: u16| #[trigger] ports.contains(p) <==> public_ports(entries).contains(p),
        forall|i: int| 0 <= i < entries.len() ==> !to_ipv4.contains_key(#[trigger] decimal(entries[i].1 as nat)),
        forall|i: int| 0 <= i < entries.len() ==> !to_port.contains_key(#[trigger] decimal(entries[i].1 as nat)),
    ensures
        forall|i: int| 0 <= i < entries.len() ==> {
            &&& element_key(#[trigger] port_to_ipv4_items(entries, ip)[i]) == decimal(entries[i].1 as nat)
            &&& element_value(port_to_ipv4_items(entries, ip)[i]) == ip
            &&& element_key(port_to_port_items(entries)[i]) == decimal(entries[i].1 as nat)
            &&& element_value(port_to_port_items(entries)[i]) == decimal(entries[i].0 as nat)
        },
        delete_elements(
            add_elements(to_ipv4, port_to_ipv4_items(entries, ip)),
            ports.map_values(|p: u16| decimal(p as nat)),
        ) == to_ipv4,
        delete_elements(
            add_elements(to_port, port_to_port_items(entries)),
            ports.map_values(|p: u16| decimal(p as nat)),
        ) == to_port,
{
    let keys = ports.map_values(|p: u16| decimal(p as nat));
    let pubs = public_ports(entries);
    let a = port_to_ipv4_items(entries, ip);
    let b = port_to_port_items(entries);
    assert forall|i: int| 0 <= i < entries.len() implies {
        &&& element_key(#[trigger] a[i]) == decimal(entries[i].1 as nat)
        &&& element_value(a[i]) == ip
        &&& element_key(b[i]) == decimal(entries[i].1 as nat)
        &&& element_value(b[i]) == decimal(entries[i].0 as nat)
    } by {
        let k = decimal(entries[i].1 as nat);
        crate::text::lemma_decimal_digits(entries[i].1 as nat);
        assert forall|j: int| 0 <= j < k.len() implies #[trigger] k[j] != ':' by {
            assert('0' <= k[j] <= '9');
        }
        lemma_element_parts(k, ip);
        lemma_element_parts(k, decimal(entries[i].0 as nat));
    }
    assert forall|i: int| 0 <= i < entries.len() implies keys.contains(decimal(#[trigger] entries[i].1 as nat)) by {
        assert(pubs[i] == entries[i].1);
        assert(pubs.contains(entries[i].1));
        assert(ports.contains(entries[i].1));
        let j = choose|j: int| 0 <= j < ports.len() && ports[j] == entries[i].1;
        assert(keys[j] == decimal(entries[i].1 as nat));
    }
    assert forall|j: int| 0 <= j < keys.len() implies !to_ipv4.contains_key(#[trigger] keys[j]) && !to_port.contains_key(keys[j]) by {
        assert(ports.contains(ports[j]));
        assert(pubs.contains(ports[j]));
        let i = choose|i: int| 0 <= i < pubs.len() && pubs[i] == ports[j];
        assert(entries[i].1 == ports[j]);
        assert(keys[j] == decimal(entries[i].1 as nat));
    }
    assert forall|i: int| 0 <= i < a.len() implies keys.contains(#[trigger] element_key(a[i])) by {
        assert(element_key(a[i]) == decimal(entries[i].1 as nat));
        assert(keys.contains(decimal(entries[i].1 as nat)));
    }
    assert forall|i: int| 0 <= i < b.len() implies keys.contains(#[trigger] element_key(b[i])) by {
        assert(element_key(a[i]) == decimal(entries[i].1 as nat));
        assert(keys.contains(decimal(entries[i].1 as nat)));
    }
    lemma_delete_undoes_add(to_ipv4, a, keys);
    lemma_delete_undoes_add(to_port, b, keys);
}

/// The text of the queue after `ops`, one after the other, from `q`, and the
/// batches taken on the way: `Some(t)` queues `t` (what `set_rule` and
/// `clean_rule` do, `t` empty where they queue nothing), `None` is a `take`,
/// which hands out what is queued, if anything, and empties the queue.
pub open spec fn run_queue(q: Seq<char>, ops: Seq<Option<Seq<char>>>) -> (Seq<char>, Seq<Seq<char>>)
    decreases ops.len(),
{
    if ops.len() == 0 {
        (q, Seq::empty())
    } else {
        let (p, taken) = run_queue(q, ops.drop_last());
        match ops.last() {
            Some(t) => (p + t, taken),
            None => if p.len() == 0 {
                (p, taken)
            } else {
                (Seq::empty(), taken.push(p))
            },
        }
    }
}

/// The texts queued by `ops`, one after the other.
pub open spec fn queued_text(ops: Seq<Option<Seq<char>>>) -> Seq<char>
    decreases ops.len(),
{
    if ops.len() == 0 {
        Seq::empty()
    } else {
        queued_text(ops.drop_last()) + match ops.last() {
            Some(t) => t,
            None => Seq::empty(),
        }
    }
}

/// Over any interleaving of queued changes and takes, each queued statement
/// is handed out exactly once and in the order it was queued: the batches
/// taken, one after the other, followed by what is still queued, are the
/// text the queue started with followed by everything queued since; and no
/// batch handed out is empty.
pub proof fn law_queue_hands_out_once(q: Seq<char>, ops: Seq<Option<Seq<char>>>)
    ensures
        concat(run_queue(q, ops).1) + run_queue(q, ops).0 == q + queued_text(ops),
        forall|i: int| 0 <= i < run_queue(q, ops).1.len() ==> #[trigger] run_queue(q, ops).1[i].len() > 0,
    decreases ops.len(),
{
    if ops.len() > 0 {
        let rest = ops.drop_last();
        law_queue_hands_out_once(q, rest);
        let (p, taken) = run_queue(q, rest);
        match ops.last() {
            Some(t) => {
                assert(concat(taken) + (p + t) =~= (concat(taken) + p) + t);
                assert(q + queued_text(ops) =~= (q + queued_text(rest)) + t);
            },
            None => {
                assert(queued_text(ops) =~= queued_text(rest));
                if p.len() > 0 {
                    assert(taken.push(p).drop_last() =~= taken);
                    assert(concat(taken.push(p)) + Seq::<char>::empty() =~= concat(taken) + p);
                }
            },
        }
    }
}

} // verus!
