//! Where a link may be made: an ip/port pair, and where the pair came from.
use vstd::prelude::*;
use crate::task::{texts, Task};

verus! {

/// Where an ip came from.
#[derive(Debug, Clone, Copy, PartialEq, Eq, Structural)]
pub enum IpSourceType {
    /// Nowhere yet.
    Null,
    /// The app's debug setting.
    Debug,
    /// The system's dns.
    Dns,
    /// The app's own dns.
    NewDns,
    /// A proxy.
    Proxy,
    /// The backup ips of the host.
    Backup,
}

impl IpSourceType {
    /// What the source is called in a dump.
    pub fn name(self) -> (text: String)
        ensures
            text@ == ip_source_name(self),
    {
        match self {
            IpSourceType::Null => "NullIP".to_owned(),
            IpSourceType::Debug => "DebugIP".to_owned(),
            IpSourceType::Dns => "DNSIP".to_owned(),
            IpSourceType::NewDns => "NewDNSIP".to_owned(),
            IpSourceType::Proxy => "ProxyIP".to_owned(),
            IpSourceType::Backup => "BackupIP".to_owned(),
        }
    }
}

/// What a source is called in a dump.
pub open spec fn ip_source_name(source: IpSourceType) -> Seq<char> {
    match source {
        IpSourceType::Null => "NullIP"@,
        IpSourceType::Debug => "DebugIP"@,
        IpSourceType::Dns => "DNSIP"@,
        IpSourceType::NewDns => "NewDNSIP"@,
        IpSourceType::Proxy => "ProxyIP"@,
        IpSourceType::Backup => "BackupIP"@,
    }
}

/// One pair a link may be made on.
#[derive(Debug, Clone, PartialEq, Eq)]
pub struct IpPortItem {
    pub ip: String,
    pub port: u16,
    pub source_type: IpSourceType,
    pub host: String,
    pub transport_protocol: i32,
    pub from_source: i32,
}

impl IpPortItem {
    /// A pair that came from nowhere, over TCP.
    pub fn new(ip: &str, port: u16) -> (item: Self)
        ensures
            item.ip@ == ip@,
            item.port == port,
            item.source_type == IpSourceType::Null,
            item.host@.len() == 0,
            item.transport_protocol == Task::TRANSPORT_PROTOCOL_TCP,
            item.from_source == 0,
    {
        IpPortItem {
            ip: ip.to_owned(),
            port,
            source_type: IpSourceType::Null,
            host: String::new(),
            transport_protocol: Task::TRANSPORT_PROTOCOL_TCP,
            from_source: 0,
        }
    }

    /// The same pair once more.
    pub fn copy(&self) -> (item: Self)
        ensures
            item == *self,
    {
        IpPortItem {
            ip: self.ip.clone(),
            port: self.port,
            source_type: self.source_type,
            host: self.host.clone(),
            transport_protocol: self.transport_protocol,
            from_source: self.from_source,
        }
    }
}

/// A copy of a list of pairs.
pub fn copy_items(list: &Vec<IpPortItem>) -> (copy: Vec<IpPortItem>)
    ensures
        copy@ == list@,
{
    let mut copy: Vec<IpPortItem> = Vec::new();
    let mut i: usize = 0;
    while i < list.len()
        invariant
            i <= list.len(),
            copy@ == list@.subrange(0, i as int),
        decreases list.len() - i,
    {
        copy.push(list[i].copy());
        i += 1;
        assert(list@.subrange(0, i as int) == list@.subrange(0, i - 1).push(list@[i - 1]));
    }
    assert(list@.subrange(0, i as int) == list@);
    copy
}

/// The contents of an [`IpPortItem`].
pub struct IpPortView {
    pub ip: Seq<char>,
    pub port: u16,
    pub source_type: IpSourceType,
    pub host: Seq<char>,
    pub transport_protocol: i32,
    pub from_source: i32,
}

impl View for IpPortItem {
    type V = IpPortView;

    open spec fn view(&self) -> IpPortView {
        IpPortView {
            ip: self.ip@,
            port: self.port,
            source_type: self.source_type,
            host: self.host@,
            transport_protocol: self.transport_protocol,
            from_source: self.from_source,
        }
    }
}

/// The contents of a list of pairs.
pub open spec fn pair_views(items: Seq<IpPortItem>) -> Seq<IpPortView> {
    items.map_values(|item: IpPortItem| item@)
}

/// A pair over TCP.
pub open spec fn tcp_pair(
    ip: Seq<char>,
    port: u16,
    source_type: IpSourceType,
    host: Seq<char>,
) -> IpPortView {
    IpPortView {
        ip,
        port,
        source_type,
        host,
        transport_protocol: Task::TRANSPORT_PROTOCOL_TCP,
        from_source: 0,
    }
}

/// A pair over TCP.
pub fn make_pair(ip: &str, port: u16, source_type: IpSourceType, host: &str) -> (item: IpPortItem)
    ensures
        item@ == tcp_pair(ip@, port, source_type, host@),
{
    IpPortItem {
        ip: ip.to_owned(),
        port,
        source_type,
        host: host.to_owned(),
        transport_protocol: Task::TRANSPORT_PROTOCOL_TCP,
        from_source: 0,
    }
}

/// One ip on every port.
pub open spec fn on_ports(
    ip: Seq<char>,
    ports: Seq<u16>,
    source_type: IpSourceType,
    host: Seq<char>,
) -> Seq<IpPortView> {
    ports.map_values(|port: u16| tcp_pair(ip, port, source_type, host))
}

/// One ip on every port, after what there is already.
pub fn add_on_ports(
    items: &mut Vec<IpPortItem>,
    ip: &str,
    ports: &Vec<u16>,
    source_type: IpSourceType,
    host: &str,
)
    ensures
        pair_views(final(items)@) == pair_views(old(items)@) + on_ports(
            ip@,
            ports@,
            source_type,
            host@,
        ),
{
    let ghost before = items@;
    let ghost all = on_ports(ip@, ports@, source_type, host@);
    let mut i: usize = 0;
    assert(pair_views(before) =~= pair_views(before) + all.take(0));
    while i < ports.len()
        invariant
            i <= ports@.len(),
            all == on_ports(ip@, ports@, source_type, host@),
            pair_views(items@) == pair_views(before) + all.take(i as int),
        decreases ports@.len() - i,
    {
        let ghost mid = items@;
        items.push(make_pair(ip, ports[i], source_type, host));
        proof {
            assert(pair_views(items@) =~= pair_views(mid).push(all[i as int]));
            assert(pair_views(mid).push(all[i as int]) =~= pair_views(before) + all.take(i + 1));
        }
        i += 1;
    }
    assert(all.take(i as int) =~= all);
}

/// Every ip on every port, ip by ip.
pub open spec fn all_on_ports(
    ips: Seq<Seq<char>>,
    ports: Seq<u16>,
    source_type: IpSourceType,
    host: Seq<char>,
) -> Seq<IpPortView>
    decreases ips.len(),
{
    if ips.len() == 0 {
        seq![]
    } else {
        all_on_ports(ips.drop_last(), ports, source_type, host) + on_ports(
            ips.last(),
            ports,
            source_type,
            host,
        )
    }
}

/// Every ip on every port, ip by ip.
pub fn make_pairs(
    ips: &Vec<String>,
    ports: &Vec<u16>,
    source_type: IpSourceType,
    host: &str,
) -> (items: Vec<IpPortItem>)
    ensures
        pair_views(items@) == all_on_ports(texts(ips@), ports@, source_type, host@),
{
    let mut items: Vec<IpPortItem> = Vec::new();
    let mut i: usize = 0;
    assert(pair_views(items@) =~= seq![]);
    while i < ips.len()
        invariant
            i <= ips@.len(),
            pair_views(items@) == all_on_ports(
                texts(ips@.take(i as int)),
                ports@,
                source_type,
                host@,
            ),
        decreases ips@.len() - i,
    {
        add_on_ports(&mut items, ips[i].as_str(), ports, source_type, host);
        proof {
            let next = texts(ips@.take(i + 1));
            assert(next.drop_last() =~= texts(ips@.take(i as int)));
            assert(next.last() == ips@[i as int]@);
        }
        i += 1;
    }
    assert(ips@.take(i as int) =~= ips@);
    items
}

} // verus!
