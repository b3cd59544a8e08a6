//! Where an ip/port pair comes from.
//!
//! [`NetSource`] is the table behind every connection: the long-link hosts and
//! ports the app set, the debug ip that overrides dns for one host or one cgi,
//! and the backup ips a host falls back to. The history that says which pairs
//! failed, and the dns, are behind [`SourceHost`].
use vstd::prelude::*;
use vstd::string::StringExecFns;
use crate::ip_port::{ip_source_name, pair_views, IpPortItem, IpPortView};
use crate::task::{copy_texts, texts, Task};
use crate::text_map::TextMap;

verus! {

/// No network at all.
pub const NO_NET: i32 = -1;

/// The group a long link belongs to unless it says otherwise.
pub const DEFAULT_LONGLINK_GROUP: &'static str = "default-group";

/// What a long link is built from.
#[derive(Debug, Clone, PartialEq, Eq)]
pub struct LonglinkConfig {
    /// The channel id.
    pub name: String,
    /// Empty means "the hosts the app set".
    pub host_list: Vec<String>,
    /// `false` leaves the reconnect to a task.
    pub is_keep_alive: bool,
    pub group: String,
    pub is_main: bool,
    /// One of the `Task::CHANNEL_*`, which is what decides which debug ip a
    /// long link is given.
    pub link_type: i32,
    pub need_tls: bool,
}

impl LonglinkConfig {
    /// A link of that name that is not the main one.
    pub fn new(name: &str) -> (config: Self)
        ensures
            config.name@ == name@,
            config.host_list@.len() == 0,
            !config.is_keep_alive,
            config.group@ == DEFAULT_LONGLINK_GROUP@,
            !config.is_main,
            config.link_type == Task::CHANNEL_LONG,
            config.need_tls,
    {
        LonglinkConfig {
            name: name.to_owned(),
            host_list: Vec::new(),
            is_keep_alive: false,
            group: DEFAULT_LONGLINK_GROUP.to_owned(),
            is_main: false,
            link_type: Task::CHANNEL_LONG,
            need_tls: true,
        }
    }

    /// Whether the link is the one the app is given when it asks for "the"
    /// long link.
    pub fn is_main(&self) -> (main: bool)
        ensures
            main == self.is_main,
    {
        self.is_main
    }

    /// The same config once more.
    pub fn copy(&self) -> (config: Self)
        ensures
            config.same(self),
    {
        LonglinkConfig {
            name: self.name.clone(),
            host_list: copy_texts(&self.host_list),
            is_keep_alive: self.is_keep_alive,
            group: self.group.clone(),
            is_main: self.is_main,
            link_type: self.link_type,
            need_tls: self.need_tls,
        }
    }

    /// The two configs say the same.
    pub open spec fn same(&self, other: &LonglinkConfig) -> bool {
        &&& self.name@ == other.name@
        &&& self.host_list@ == other.host_list@
        &&& self.is_keep_alive == other.is_keep_alive
        &&& self.group@ == other.group@
        &&& self.is_main == other.is_main
        &&& self.link_type == other.link_type
        &&& self.need_tls == other.need_tls
    }
}

/// What a dump puts between the fields of one item.
pub const ITEM_DELIMITER: &'static str = ":";

/// What a dump puts between the items.
pub const TABLE_DELIMITER: &'static str = "|";

/// How many pairs a host list is made up of at most; in the foreground there may be
/// one more, once one host filled the list by itself.
pub const NUM_MAKE_COUNT: usize = 5;

/// The read-write timeout of quic, in milliseconds.
pub const DEFAULT_QUIC_RW_TIMEOUT_MS: u32 = 5_000;

/// The connect timeout of quic, in milliseconds.
pub const DEFAULT_QUIC_CONNECT_TIMEOUT_MS: u32 = 250;

/// How long quic is off when the caller says nothing.
pub const DISABLE_QUIC_SECONDS: i64 = 20 * 60;

/// The port of a cgi whose debug port is zero.
pub const CGI_DEBUG_DEFAULT_PORT: u16 = 80;

/// Where a quic timeout came from.
#[derive(Debug, Clone, Copy, PartialEq, Eq, Structural)]
pub enum TimeoutSource {
    /// Nobody set it.
    ClientDefault,
    /// The default was set.
    ServerDefault,
    /// One cgi has one of its own.
    CgiSpecial,
}

impl Default for TimeoutSource {
    fn default() -> (source: Self)
        ensures
            source == TimeoutSource::ClientDefault,
    {
        TimeoutSource::ClientDefault
    }
}

/// What is handed to the app's own dns beside a host.
pub type ExtraInfo = Vec<(String, String)>;

/// The host of the net source: the dns, and the history of the pairs.
///
/// A host may answer what it likes; each call is one more thing that it heard.
pub trait SourceHost: Sized {
    /// Everything the host was told and asked so far, in order. Each host says
    /// what that is of it.
    open spec fn heard(&self) -> Seq<SourceTold> {
        Seq::empty()
    }

    /// The app's own dns, which is asked first.
    fn new_dns(&mut self, host: &str, is_longlink: bool, extra: &ExtraInfo) -> (answer: Vec<String>)
        ensures
            final(self).heard() == old(self).heard().push(
                SourceTold::NewDns {
                    host: host@,
                    is_longlink,
                    extra: extra@,
                    answer: texts(answer@),
                },
            ),
    ;

    /// The dns that is asked when the first one answered nothing.
    fn dns(&mut self, host: &str) -> (answer: Vec<String>)
        ensures
            final(self).heard() == old(self).heard().push(
                SourceTold::Dns { host: host@, answer: texts(answer@) },
            ),
    ;

    /// A number below `bound`; one that is not is taken as what it leaves over
    /// it.
    fn random(&mut self, bound: usize) -> (answer: usize)
        ensures
            final(self).heard() == old(self).heard().push(
                SourceTold::Random { bound: bound as int, answer },
            ),
    ;

    /// The pairs sorted by their history, those that are banned left out; a
    /// negative `need` keeps every pair.
    fn sort_and_filter(
        &mut self,
        now: u64,
        items: Vec<IpPortItem>,
        need: i32,
    ) -> (answer: Vec<IpPortItem>)
        ensures
            final(self).heard() == old(self).heard().push(
                SourceTold::Sort {
                    now,
                    items: pair_views(items@),
                    need: need as int,
                    answer: pair_views(answer@),
                },
            ),
    ;

    /// The history hears how a pair did.
    fn update(&mut self, now: u64, now_secs: u64, ip: &str, port: u16, is_success: bool)
        ensures
            final(self).heard() == old(self).heard().push(
                SourceTold::Update { now, now_secs, ip: ip@, port, is_success },
            ),
    ;

    /// Every port of an ip leaves the ban list.
    fn remove_banned_list(&mut self, ip: &str)
        ensures
            final(self).heard() == old(self).heard().push(SourceTold::BanRemoved { ip: ip@ }),
    ;

    /// The server bans an ip.
    fn add_server_ban(&mut self, now: u64, ip: &str)
        ensures
            final(self).heard() == old(self).heard().push(SourceTold::ServerBan { now, ip: ip@ }),
    ;

    /// The history of the network the app is on becomes the ban list.
    fn init_history_to_banned_list(&mut self)
        ensures
            final(self).heard() == old(self).heard().push(SourceTold::HistoryInit),
    ;
}

/// One thing the net source told its host, or one thing it asked and the
/// answer.
#[allow(inconsistent_fields)]
pub enum SourceTold {
    NewDns {
        host: Seq<char>,
        is_longlink: bool,
        extra: Seq<(String, String)>,
        answer: Seq<Seq<char>>,
    },
    Dns { host: Seq<char>, answer: Seq<Seq<char>> },
    Random { bound: int, answer: usize },
    Sort { now: u64, items: Seq<IpPortView>, need: int, answer: Seq<IpPortView> },
    Update { now: u64, now_secs: u64, ip: Seq<char>, port: u16, is_success: bool },
    BanRemoved { ip: Seq<char> },
    ServerBan { now: u64, ip: Seq<char> },
    HistoryInit,
}

/// Where an ip/port pair comes from.
pub struct NetSource<H> {
    /// The dns, and the history of the pairs.
    pub host: H,
    pub v4_timeout: u32,
    pub v6_timeout: u32,
    pub longlink_hosts: Vec<String>,
    pub longlink_ports: Vec<u16>,
    pub longlink_debugip: String,
    pub minorlong_debugip: String,
    pub minorlong_port: u16,
    pub shortlink_port: u16,
    pub shortlink_debugip: String,
    pub host_backup_ips: TextMap<Vec<String>>,
    pub low_priority_longlink_ports: Vec<u16>,
    pub host_debugip: TextMap<String>,
    pub cgi_debug: TextMap<(String, u16)>,
    /// When quic is let back in.
    pub quic_reopen_due: Option<u64>,
    pub quic_enabled: bool,
    /// Off for good.
    pub quic_forbidden: bool,
    pub quic_default_rw_timeoutms: u32,
    pub quic_default_timeout_source: TimeoutSource,
    pub cgi_quic_rw_timeoutms: TextMap<u32>,
    pub quic_default_conn_timeoutms: u32,
    pub quic_default_connect_timeout_source: TimeoutSource,
    pub cgi_quic_connect_timeoutms: TextMap<u32>,
    pub ipv6_enabled: bool,
    /// The app is in the foreground.
    pub is_active: bool,
    /// Which network it is, as the platform numbers it.
    pub net_info: i32,
}

/// The settings of quic and of the connects.
pub struct TimeoutView {
    pub v4_timeout: u32,
    pub v6_timeout: u32,
    pub quic_reopen_due: Option<u64>,
    pub quic_enabled: bool,
    pub quic_forbidden: bool,
    pub rw_default: (u32, TimeoutSource),
    pub rw_by_cgi: Map<Seq<char>, u32>,
    pub connect_default: (u32, TimeoutSource),
    pub connect_by_cgi: Map<Seq<char>, u32>,
    pub ipv6_enabled: bool,
}

/// The contents of a [`NetSource`].
pub struct SourceView {
    pub longlink_hosts: Seq<Seq<char>>,
    pub longlink_ports: Seq<u16>,
    pub longlink_debugip: Seq<char>,
    pub minorlong_debugip: Seq<char>,
    pub minorlong_port: u16,
    pub shortlink_port: u16,
    pub shortlink_debugip: Seq<char>,
    pub backup: Map<Seq<char>, Seq<Seq<char>>>,
    pub low_ports: Seq<u16>,
    pub host_debugip: Map<Seq<char>, Seq<char>>,
    pub cgi_debug: Map<Seq<char>, (Seq<char>, u16)>,
    pub timeouts: TimeoutView,
    pub is_active: bool,
    pub net_info: i32,
    pub told: Seq<SourceTold>,
}

/// The backup ips by host.
pub open spec fn backup_view(map: Map<Seq<char>, Vec<String>>) -> Map<Seq<char>, Seq<Seq<char>>> {
    map.map_values(|ips: Vec<String>| texts(ips@))
}

/// The debug ips by host.
pub open spec fn debugip_view(map: Map<Seq<char>, String>) -> Map<Seq<char>, Seq<char>> {
    map.map_values(|ip: String| ip@)
}

/// The debug pairs by cgi.
pub open spec fn cgi_view(map: Map<Seq<char>, (String, u16)>) -> Map<Seq<char>, (Seq<char>, u16)> {
    map.map_values(|pair: (String, u16)| (pair.0@, pair.1))
}

impl<H> NetSource<H> {
    /// The settings of quic and of the connects.
    pub open spec fn timeouts(&self) -> TimeoutView {
        TimeoutView {
            v4_timeout: self.v4_timeout,
            v6_timeout: self.v6_timeout,
            quic_reopen_due: self.quic_reopen_due,
            quic_enabled: self.quic_enabled,
            quic_forbidden: self.quic_forbidden,
            rw_default: (self.quic_default_rw_timeoutms, self.quic_default_timeout_source),
            rw_by_cgi: self.cgi_quic_rw_timeoutms@,
            connect_default: (
                self.quic_default_conn_timeoutms,
                self.quic_default_connect_timeout_source,
            ),
            connect_by_cgi: self.cgi_quic_connect_timeoutms@,
            ipv6_enabled: self.ipv6_enabled,
        }
    }
}

impl<H: SourceHost> View for NetSource<H> {
    type V = SourceView;

    open spec fn view(&self) -> SourceView {
        SourceView {
            longlink_hosts: texts(self.longlink_hosts@),
            longlink_ports: self.longlink_ports@,
            longlink_debugip: self.longlink_debugip@,
            minorlong_debugip: self.minorlong_debugip@,
            minorlong_port: self.minorlong_port,
            shortlink_port: self.shortlink_port,
            shortlink_debugip: self.shortlink_debugip@,
            backup: backup_view(self.host_backup_ips@),
            low_ports: self.low_priority_longlink_ports@,
            host_debugip: debugip_view(self.host_debugip@),
            cgi_debug: cgi_view(self.cgi_debug@),
            timeouts: self.timeouts(),
            is_active: self.is_active,
            net_info: self.net_info,
            told: self.host.heard(),
        }
    }
}

impl TimeoutView {
    /// The settings nobody changed.
    pub open spec fn fresh() -> TimeoutView {
        TimeoutView {
            v4_timeout: 0,
            v6_timeout: 0,
            quic_reopen_due: None,
            quic_enabled: true,
            quic_forbidden: true,
            rw_default: (DEFAULT_QUIC_RW_TIMEOUT_MS, TimeoutSource::ClientDefault),
            rw_by_cgi: Map::empty(),
            connect_default: (DEFAULT_QUIC_CONNECT_TIMEOUT_MS, TimeoutSource::ClientDefault),
            connect_by_cgi: Map::empty(),
            ipv6_enabled: true,
        }
    }

    /// The reading quic is let back in at, after it was off for so many
    /// seconds.
    pub open spec fn reopen_at(now: u64, seconds: i64) -> u64 {
        if seconds <= 0 {
            now
        } else if now + seconds * 1000 > u64::MAX {
            u64::MAX
        } else {
            (now + seconds * 1000) as u64
        }
    }

    /// Quic is let back in at the reading.
    pub open spec fn reopens(self, now: u64) -> bool {
        match self.quic_reopen_due {
            Some(due) => now >= due,
            None => true,
        }
    }

    /// Quic may be used at the reading.
    pub open spec fn quic_usable(self, now: u64) -> bool {
        !self.quic_forbidden && (self.quic_enabled || self.reopens(now))
    }

    /// A timeout and where it came from.
    pub open spec fn timeout_of(
        by_cgi: Map<Seq<char>, u32>,
        default: (u32, TimeoutSource),
        cgi: Seq<char>,
    ) -> (u32, TimeoutSource) {
        if by_cgi.contains_key(cgi) {
            (by_cgi[cgi], TimeoutSource::CgiSpecial)
        } else {
            default
        }
    }
}

impl SourceView {
    /// A source the app set nothing on.
    pub open spec fn fresh(told: Seq<SourceTold>) -> SourceView {
        SourceView {
            longlink_hosts: seq![],
            longlink_ports: seq![],
            longlink_debugip: seq![],
            minorlong_debugip: seq![],
            minorlong_port: 0,
            shortlink_port: 0,
            shortlink_debugip: seq![],
            backup: Map::empty(),
            low_ports: seq![],
            host_debugip: Map::empty(),
            cgi_debug: Map::empty(),
            timeouts: TimeoutView::fresh(),
            is_active: false,
            net_info: NO_NET,
            told,
        }
    }

    /// The host was told one thing.
    pub open spec fn said(self, word: SourceTold) -> SourceView {
        SourceView { told: self.told.push(word), ..self }
    }

    /// The long link is set; a list without a host leaves the hosts there are.
    pub open spec fn longlink_set(
        self,
        hosts: Seq<Seq<char>>,
        ports: Seq<u16>,
        debugip: Seq<char>,
    ) -> SourceView {
        SourceView {
            longlink_hosts: if hosts.len() > 0 {
                hosts
            } else {
                self.longlink_hosts
            },
            longlink_ports: ports,
            longlink_debugip: debugip,
            ..self
        }
    }

    /// The debug ip of a host is set; an empty one takes it away.
    pub open spec fn debug_ip_set(self, host: Seq<char>, ip: Seq<char>) -> SourceView {
        SourceView {
            host_debugip: if ip.len() == 0 {
                self.host_debugip.remove(host)
            } else {
                self.host_debugip.insert(host, ip)
            },
            ..self
        }
    }

    /// The debug pair of a cgi is set; an empty ip takes it away.
    pub open spec fn cgi_debug_ip_set(self, cgi: Seq<char>, ip: Seq<char>, port: u16) -> SourceView {
        SourceView {
            cgi_debug: if cgi.len() == 0 {
                self.cgi_debug
            } else if ip.len() == 0 {
                self.cgi_debug.remove(cgi)
            } else {
                self.cgi_debug.insert(
                    cgi,
                    (
                        ip,
                        if port == 0 {
                            CGI_DEBUG_DEFAULT_PORT
                        } else {
                            port
                        },
                    ),
                )
            },
            ..self
        }
    }

    /// The backup ips of a host.
    pub open spec fn backup_of(self, host: Seq<char>) -> Seq<Seq<char>> {
        if self.backup.contains_key(host) {
            self.backup[host]
        } else {
            seq![]
        }
    }
}

impl<H: SourceHost> NetSource<H> {
    /// A source the app set nothing on.
    pub fn new_at(host: H, _now: u64) -> (source: Self)
        ensures
            source@ == SourceView::fresh(host.heard()),
            source.host == host,
    {
        let source = NetSource {
            host,
            v4_timeout: 0,
            v6_timeout: 0,
            longlink_hosts: Vec::new(),
            longlink_ports: Vec::new(),
            longlink_debugip: String::new(),
            minorlong_debugip: String::new(),
            minorlong_port: 0,
            shortlink_port: 0,
            shortlink_debugip: String::new(),
            host_backup_ips: TextMap::new(),
            low_priority_longlink_ports: Vec::new(),
            host_debugip: TextMap::new(),
            cgi_debug: TextMap::new(),
            quic_reopen_due: None,
            quic_enabled: true,
            quic_forbidden: true,
            quic_default_rw_timeoutms: DEFAULT_QUIC_RW_TIMEOUT_MS,
            quic_default_timeout_source: TimeoutSource::ClientDefault,
            cgi_quic_rw_timeoutms: TextMap::new(),
            quic_default_conn_timeoutms: DEFAULT_QUIC_CONNECT_TIMEOUT_MS,
            quic_default_connect_timeout_source: TimeoutSource::ClientDefault,
            cgi_quic_connect_timeoutms: TextMap::new(),
            ipv6_enabled: true,
            is_active: false,
            net_info: NO_NET,
        };
        proof {
            assert(source@.longlink_hosts =~= seq![]);
            assert(source@.longlink_ports =~= seq![]);
            assert(source@.longlink_debugip =~= seq![]);
            assert(source@.minorlong_debugip =~= seq![]);
            assert(source@.shortlink_debugip =~= seq![]);
            assert(source@.low_ports =~= seq![]);
            assert(source@.backup =~= Map::empty());
            assert(source@.host_debugip =~= Map::empty());
            assert(source@.cgi_debug =~= Map::empty());
        }
        source
    }

    /// Whether the app is in the foreground.
    pub fn set_is_active(&mut self, is_active: bool)
        ensures
            final(self)@ == (SourceView { is_active, ..old(self)@ }),
    {
        self.is_active = is_active;
    }

    /// Which network it is, as the platform numbers it.
    pub fn set_net_info(&mut self, net_info: i32)
        ensures
            final(self)@ == (SourceView { net_info, ..old(self)@ }),
    {
        self.net_info = net_info;
    }

    /// The hosts, the ports and the debug ip of the long link; an empty host
    /// list is ignored, and what the app set last stays.
    pub fn set_longlink(&mut self, hosts: Vec<String>, ports: Vec<u16>, debugip: &str)
        ensures
            final(self)@ == old(self)@.longlink_set(texts(hosts@), ports@, debugip@),
    {
        self.longlink_debugip = debugip.to_owned();
        if hosts.len() > 0 {
            self.longlink_hosts = hosts;
        }
        self.longlink_ports = ports;
    }

    /// The port and the debug ip of the short link.
    pub fn set_shortlink(&mut self, port: u16, debugip: &str)
        ensures
            final(self)@ == (SourceView {
                shortlink_port: port,
                shortlink_debugip: debugip@,
                ..old(self)@
            }),
    {
        self.shortlink_port = port;
        self.shortlink_debugip = debugip.to_owned();
    }

    /// The debug pair of a minor long link.
    pub fn set_minorlong_debug_ip(&mut self, ip: &str, port: u16)
        ensures
            final(self)@ == (SourceView {
                minorlong_debugip: ip@,
                minorlong_port: port,
                ..old(self)@
            }),
    {
        self.minorlong_debugip = ip.to_owned();
        self.minorlong_port = port;
    }

    /// The backup ips of a host.
    pub fn set_backup_ips(&mut self, host: &str, ips: Vec<String>)
        ensures
            final(self)@ == (SourceView {
                backup: old(self)@.backup.insert(host@, texts(ips@)),
                ..old(self)@
            }),
    {
        self.host_backup_ips.insert(host.to_owned(), ips);
        assert(self@.backup =~= old(self)@.backup.insert(host@, texts(ips@)));
    }

    /// The debug ip of a host; an empty one takes it away.
    pub fn set_debug_ip(&mut self, host: &str, ip: &str)
        ensures
            final(self)@ == old(self)@.debug_ip_set(host@, ip@),
    {
        if ip.is_empty() {
            self.host_debugip.remove(host);
            assert(self@.host_debugip =~= old(self)@.host_debugip.remove(host@));
        } else {
            self.host_debugip.insert(host.to_owned(), ip.to_owned());
            assert(self@.host_debugip =~= old(self)@.host_debugip.insert(host@, ip@));
        }
    }

    /// The ports a long link is tried on last.
    pub fn set_low_priority_longlink_ports(&mut self, ports: Vec<u16>)
        ensures
            final(self)@ == (SourceView { low_ports: ports@, ..old(self)@ }),
    {
        self.low_priority_longlink_ports = ports;
    }

    /// The debug ip of the long link.
    pub fn longlink_debug_ip(&self) -> (ip: &str)
        ensures
            ip@ == self@.longlink_debugip,
    {
        self.longlink_debugip.as_str()
    }

    /// The debug ip of the short link.
    pub fn shortlink_debug_ip(&self) -> (ip: &str)
        ensures
            ip@ == self@.shortlink_debugip,
    {
        self.shortlink_debugip.as_str()
    }

    /// The debug ip of a minor long link.
    pub fn minorlong_debug_ip(&self) -> (ip: &str)
        ensures
            ip@ == self@.minorlong_debugip,
    {
        self.minorlong_debugip.as_str()
    }

    /// The hosts of the long link.
    pub fn longlink_hosts(&self) -> (hosts: &[String])
        ensures
            texts(hosts@) == self@.longlink_hosts,
    {
        self.longlink_hosts.as_slice()
    }

    /// The ports of the long link.
    pub fn longlink_ports(&self) -> (ports: Vec<u16>)
        ensures
            ports@ == self@.longlink_ports,
    {
        copy_ports(&self.longlink_ports)
    }

    /// The port of the short link.
    pub fn shortlink_port(&self) -> (port: u16)
        ensures
            port == self@.shortlink_port,
    {
        self.shortlink_port
    }

    /// The backup ips of a host.
    pub fn backup_ips(&self, host: &str) -> (ips: Vec<String>)
        ensures
            texts(ips@) == self@.backup_of(host@),
    {
        match self.host_backup_ips.get(host) {
            Some(ips) => copy_texts(ips),
            None => {
                let none: Vec<String> = Vec::new();
                assert(texts(none@) =~= seq![]);
                none
            },
        }
    }

    /// The debug pair of a cgi: an empty cgi is ignored, an empty ip takes the
    /// pair away, and a port of zero is the default one.
    pub fn set_cgi_debug_ip(&mut self, cgi: &str, ip: &str, port: u16)
        ensures
            final(self)@ == old(self)@.cgi_debug_ip_set(cgi@, ip@, port),
    {
        if cgi.is_empty() {
            return;
        }
        if ip.is_empty() {
            self.cgi_debug.remove(cgi);
            assert(self@.cgi_debug =~= old(self)@.cgi_debug.remove(cgi@));
            return;
        }
        let port: u16 = if port == 0 {
            CGI_DEBUG_DEFAULT_PORT
        } else {
            port
        };
        self.cgi_debug.insert(cgi.to_owned(), (ip.to_owned(), port));
        assert(self@.cgi_debug =~= old(self)@.cgi_debug.insert(cgi@, (ip@, port)));
    }
}

/// A copy of a list of ports.
pub fn copy_ports(ports: &Vec<u16>) -> (copy: Vec<u16>)
    ensures
        copy@ == ports@,
{
    let mut copy: Vec<u16> = Vec::new();
    let mut i: usize = 0;
    while i < ports.len()
        invariant
            i <= ports@.len(),
            copy@ =~= ports@.take(i as int),
        decreases ports@.len() - i,
    {
        copy.push(ports[i]);
        i += 1;
    }
    assert(ports@.take(i as int) =~= ports@);
    copy
}

/// One digit.
pub open spec fn digit(value: int) -> char {
    ('0' as int + value) as char
}

/// A number in decimal digits.
pub open spec fn decimal(value: nat) -> Seq<char>
    decreases value,
{
    if value < 10 {
        seq![digit(value as int)]
    } else {
        decimal(value / 10).push(digit((value % 10) as int))
    }
}

/// One digit.
fn digit_text(value: u16) -> (text: &'static str)
    requires
        value < 10,
    ensures
        text@ == seq![digit(value as int)],
{
    proof {
        reveal_strlit("0");
        assert("0"@ =~= seq!['0']);
        reveal_strlit("1");
        assert("1"@ =~= seq!['1']);
        reveal_strlit("2");
        assert("2"@ =~= seq!['2']);
        reveal_strlit("3");
        assert("3"@ =~= seq!['3']);
        reveal_strlit("4");
        assert("4"@ =~= seq!['4']);
        reveal_strlit("5");
        assert("5"@ =~= seq!['5']);
        reveal_strlit("6");
        assert("6"@ =~= seq!['6']);
        reveal_strlit("7");
        assert("7"@ =~= seq!['7']);
        reveal_strlit("8");
        assert("8"@ =~= seq!['8']);
        reveal_strlit("9");
        assert("9"@ =~= seq!['9']);
    }
    match value {
        0 => "0",
        1 => "1",
        2 => "2",
        3 => "3",
        4 => "4",
        5 => "5",
        6 => "6",
        7 => "7",
        8 => "8",
        _ => "9",
    }
}

/// A number in decimal digits.
fn decimal_text(value: u16) -> (text: String)
    ensures
        text@ == decimal(value as nat),
    decreases value,
{
    if value < 10 {
        digit_text(value).to_owned()
    } else {
        let mut text = decimal_text(value / 10);
        text.append(digit_text(value % 10));
        assert(text@ =~= decimal(value as nat / 10).push(digit(value as int % 10)));
        text
    }
}

/// One item of a dump: the ip, the port, the host and where the pair came from.
pub open spec fn dumped_item(item: IpPortView) -> Seq<char> {
    item.ip + ITEM_DELIMITER@ + decimal(item.port as nat) + ITEM_DELIMITER@ + item.host
        + ITEM_DELIMITER@ + ip_source_name(item.source_type)
}

/// A list of pairs the way it is written down.
pub open spec fn dumped(items: Seq<IpPortView>) -> Seq<char>
    decreases items.len(),
{
    if items.len() == 0 {
        seq![]
    } else if items.len() == 1 {
        dumped_item(items[0])
    } else {
        dumped(items.drop_last()) + TABLE_DELIMITER@ + dumped_item(items.last())
    }
}

/// One item of a dump.
fn dump_item(item: &IpPortItem) -> (text: String)
    ensures
        text@ == dumped_item(item@),
{
    let mut text = item.ip.clone();
    text.append(ITEM_DELIMITER);
    text.append(decimal_text(item.port).as_str());
    text.append(ITEM_DELIMITER);
    text.append(item.host.as_str());
    text.append(ITEM_DELIMITER);
    text.append(item.source_type.name().as_str());
    text
}

impl TimeoutView {
    /// The settings after quic was asked about: it is on again once the reading
    /// it was off until came.
    pub open spec fn asked_quic(self, now: u64) -> TimeoutView {
        TimeoutView {
            quic_enabled: self.quic_enabled || (!self.quic_forbidden && self.reopens(now)),
            ..self
        }
    }
}

impl SourceView {
    /// The settings of quic and of the connects are changed.
    pub open spec fn timed(self, timeouts: TimeoutView) -> SourceView {
        SourceView { timeouts, ..self }
    }

    /// A report is written down when there is an ip and a network.
    pub open spec fn reported(
        self,
        now: u64,
        now_secs: u64,
        is_success: bool,
        ip: Seq<char>,
        port: u16,
    ) -> SourceView {
        SourceView {
            told: if ip.len() == 0 || self.net_info == NO_NET {
                self.told
            } else {
                self.told.push(SourceTold::Update { now, now_secs, ip, port, is_success })
            },
            ..self
        }
    }
}

impl<H: SourceHost> NetSource<H> {
    /// How a pair of a long link did. An empty ip, a port of zero, and no
    /// network are the three things that drop the report.
    pub fn report_long_ip_at(
        &mut self,
        now: u64,
        now_secs: u64,
        is_success: bool,
        ip: &str,
        port: u16,
    )
        ensures
            port == 0 ==> final(self)@ == old(self)@,
            port != 0 ==> final(self)@ == old(self)@.reported(now, now_secs, is_success, ip@, port),
    {
        if ip.is_empty() || port == 0 {
            return;
        }
        if self.net_info == NO_NET {
            return;
        }
        self.record(now, now_secs, is_success, ip, port);
    }

    /// How a pair of a short link did. Only an empty ip and no network drop the
    /// report here: the port is not looked at.
    pub fn report_short_ip_at(
        &mut self,
        now: u64,
        now_secs: u64,
        is_success: bool,
        ip: &str,
        _host: &str,
        port: u16,
    )
        ensures
            final(self)@ == old(self)@.reported(now, now_secs, is_success, ip@, port),
    {
        if ip.is_empty() {
            return;
        }
        if self.net_info == NO_NET {
            return;
        }
        self.record(now, now_secs, is_success, ip, port);
    }

    /// The history hears how a pair did.
    fn record(&mut self, now: u64, now_secs: u64, is_success: bool, ip: &str, port: u16)
        ensures
            final(self)@ == old(self)@.said(
                SourceTold::Update { now, now_secs, ip: ip@, port, is_success },
            ),
    {
        self.host.update(now, now_secs, ip, port, is_success);
    }

    /// Every port of the ip leaves the ban list, which is what a speed test
    /// that succeeded does.
    pub fn remove_long_ban_ip(&mut self, ip: &str)
        ensures
            final(self)@ == old(self)@.said(SourceTold::BanRemoved { ip: ip@ }),
    {
        self.host.remove_banned_list(ip);
    }

    /// The server bans an ip.
    pub fn add_server_ban_at(&mut self, now: u64, ip: &str)
        ensures
            final(self)@ == old(self)@.said(SourceTold::ServerBan { now, ip: ip@ }),
    {
        self.host.add_server_ban(now, ip);
    }

    /// The history of the network the app is on becomes the ban list.
    pub fn init_history_to_banned_list(&mut self)
        ensures
            final(self)@ == old(self)@.said(SourceTold::HistoryInit),
    {
        self.host.init_history_to_banned_list();
    }

    /// The ban list is rebuilt, and quic and ipv6 are let back in.
    pub fn clear_cache(&mut self)
        ensures
            final(self)@ == old(self)@.said(SourceTold::HistoryInit).timed(
                (TimeoutView { quic_enabled: true, ipv6_enabled: true, ..old(self)@.timeouts }),
            ),
    {
        self.init_history_to_banned_list();
        self.quic_enabled = true;
        self.ipv6_enabled = true;
    }

    /// A list of pairs the way it is written down: `ip:port:host:source`, with
    /// a `|` between the items.
    pub fn dump_table(items: &[IpPortItem]) -> (text: String)
        ensures
            text@ == dumped(pair_views(items@)),
    {
        if items.len() == 0 {
            let none = String::new();
            assert(none@ =~= seq![]);
            return none;
        }
        let ghost all = pair_views(items@);
        let mut text = dump_item(&items[0]);
        let mut i: usize = 1;
        assert(all.take(1).len() == 1 && all.take(1)[0] == all[0]);
        while i < items.len()
            invariant
                1 <= i <= items@.len(),
                all == pair_views(items@),
                text@ == dumped(all.take(i as int)),
            decreases items@.len() - i,
        {
            text.append(TABLE_DELIMITER);
            text.append(dump_item(&items[i]).as_str());
            proof {
                assert(all.take(i + 1).drop_last() =~= all.take(i as int));
                assert(all.take(i + 1).last() == all[i as int]);
            }
            i += 1;
        }
        assert(all.take(i as int) =~= all);
        text
    }

    /// Quic is off for so many seconds and comes back on its own the first time
    /// it is asked about afterwards.
    pub fn disable_quic_at(&mut self, now: u64, seconds: i64)
        ensures
            final(self)@ == old(self)@.timed(
                (TimeoutView {
                    quic_enabled: false,
                    quic_reopen_due: Some(TimeoutView::reopen_at(now, seconds)),
                    ..old(self)@.timeouts
                }),
            ),
    {
        self.quic_enabled = false;
        let millis: u64 = if seconds <= 0 {
            0
        } else if seconds as u64 > u64::MAX / 1000 {
            u64::MAX
        } else {
            seconds as u64 * 1000
        };
        self.quic_reopen_due = Some(now.saturating_add(millis));
    }

    /// Quic is off for good, or not.
    pub fn forbid_quic(&mut self, forbid: bool)
        ensures
            final(self)@ == old(self)@.timed(
                (TimeoutView { quic_forbidden: forbid, ..old(self)@.timeouts }),
            ),
    {
        self.quic_forbidden = forbid;
    }

    /// Whether quic may be used.
    pub fn can_use_quic_at(&mut self, now: u64) -> (usable: bool)
        ensures
            usable == old(self)@.timeouts.quic_usable(now),
            final(self)@ == old(self)@.timed(old(self)@.timeouts.asked_quic(now)),
    {
        if self.quic_forbidden {
            return false;
        }
        if self.quic_enabled {
            return true;
        }
        let due: u64 = match self.quic_reopen_due {
            Some(due) => due,
            None => 0,
        };
        if now >= due {
            self.quic_enabled = true;
        }
        self.quic_enabled
    }

    /// The read-write timeout of a cgi, and where it came from.
    pub fn quic_rw_timeout_ms(&self, cgi: &str) -> (timeout: (u32, TimeoutSource))
        ensures
            timeout == TimeoutView::timeout_of(
                self@.timeouts.rw_by_cgi,
                self@.timeouts.rw_default,
                cgi@,
            ),
    {
        match self.cgi_quic_rw_timeoutms.get(cgi) {
            Some(ms) => (*ms, TimeoutSource::CgiSpecial),
            None => (self.quic_default_rw_timeoutms, self.quic_default_timeout_source),
        }
    }

    /// The read-write timeout of one cgi.
    pub fn set_quic_rw_timeout_ms(&mut self, cgi: &str, ms: u32)
        ensures
            final(self)@ == old(self)@.timed(
                (TimeoutView {
                    rw_by_cgi: old(self)@.timeouts.rw_by_cgi.insert(cgi@, ms),
                    ..old(self)@.timeouts
                }),
            ),
    {
        self.cgi_quic_rw_timeoutms.insert(cgi.to_owned(), ms);
    }

    /// The read-write timeout of every other cgi.
    pub fn set_default_quic_rw_timeout_ms(&mut self, ms: u32)
        ensures
            final(self)@ == old(self)@.timed(
                (TimeoutView {
                    rw_default: (ms, TimeoutSource::ServerDefault),
                    ..old(self)@.timeouts
                }),
            ),
    {
        self.quic_default_rw_timeoutms = ms;
        self.quic_default_timeout_source = TimeoutSource::ServerDefault;
    }

    /// The connect timeout of a cgi, and where it came from.
    pub fn quic_connect_timeout_ms(&self, cgi: &str) -> (timeout: (u32, TimeoutSource))
        ensures
            timeout == TimeoutView::timeout_of(
                self@.timeouts.connect_by_cgi,
                self@.timeouts.connect_default,
                cgi@,
            ),
    {
        match self.cgi_quic_connect_timeoutms.get(cgi) {
            Some(ms) => (*ms, TimeoutSource::CgiSpecial),
            None => (self.quic_default_conn_timeoutms, self.quic_default_connect_timeout_source),
        }
    }

    /// The connect timeout of one cgi.
    pub fn set_quic_connect_timeout_ms(&mut self, cgi: &str, ms: u32)
        ensures
            final(self)@ == old(self)@.timed(
                (TimeoutView {
                    connect_by_cgi: old(self)@.timeouts.connect_by_cgi.insert(cgi@, ms),
                    ..old(self)@.timeouts
                }),
            ),
    {
        self.cgi_quic_connect_timeoutms.insert(cgi.to_owned(), ms);
    }

    /// The connect timeout of every other cgi.
    pub fn set_default_quic_connect_timeout_ms(&mut self, ms: u32)
        ensures
            final(self)@ == old(self)@.timed(
                (TimeoutView {
                    connect_default: (ms, TimeoutSource::ServerDefault),
                    ..old(self)@.timeouts
                }),
            ),
    {
        self.quic_default_conn_timeoutms = ms;
        self.quic_default_connect_timeout_source = TimeoutSource::ServerDefault;
    }

    /// No ipv6 from here on.
    pub fn disable_ipv6(&mut self)
        ensures
            final(self)@ == old(self)@.timed(
                (TimeoutView { ipv6_enabled: false, ..old(self)@.timeouts }),
            ),
    {
        self.ipv6_enabled = false;
    }

    /// Whether ipv6 may be used.
    pub fn can_use_ipv6(&self) -> (usable: bool)
        ensures
            usable == self@.timeouts.ipv6_enabled,
    {
        self.ipv6_enabled
    }

    /// How long a connect may take, in milliseconds.
    pub fn set_ip_connect_timeout(&mut self, v4_timeout: u32, v6_timeout: u32)
        ensures
            final(self)@ == old(self)@.timed(
                (TimeoutView { v4_timeout, v6_timeout, ..old(self)@.timeouts }),
            ),
    {
        self.v4_timeout = v4_timeout;
        self.v6_timeout = v6_timeout;
    }

    /// How long a connect may take, over ipv4 and over ipv6.
    pub fn ip_connect_timeout(&self) -> (timeouts: (u32, u32))
        ensures
            timeouts == (self@.timeouts.v4_timeout, self@.timeouts.v6_timeout),
    {
        (self.v4_timeout, self.v6_timeout)
    }

    /// The pairs a speed test is made on: there are none.
    pub fn longlink_speed_test_ips(&mut self) -> (items: Vec<IpPortItem>)
        ensures
            items@.len() == 0,
            final(self)@ == old(self)@,
    {
        Vec::new()
    }

    /// What a speed test measured is not kept.
    pub fn report_longlink_speed_test_result(&mut self, _items: &[IpPortItem])
        ensures
            final(self)@ == old(self)@,
    {
    }

    /// The history and the ban list behind the sort.
    pub fn ipport_strategy(&self) -> (history: &H)
        ensures
            *history == self.host,
    {
        &self.host
    }
}

/// Quic that was turned off is back once its time ran out, and not before, as
/// long as it is not forbidden.
pub proof fn law_quic_comes_back_on_its_own(
    timeouts: TimeoutView,
    off_at: u64,
    seconds: i64,
    now: u64,
)
    requires
        !timeouts.quic_forbidden,
        seconds > 0,
        off_at + seconds * 1000 <= u64::MAX,
    ensures
        (TimeoutView {
            quic_enabled: false,
            quic_reopen_due: Some(TimeoutView::reopen_at(off_at, seconds)),
            ..timeouts
        }).quic_usable(now) <==> now >= off_at + seconds * 1000,
{
}

/// Quic that is forbidden may not be used, whatever else was set.
pub proof fn law_forbidden_quic_is_never_used(timeouts: TimeoutView, now: u64)
    requires
        timeouts.quic_forbidden,
    ensures
        !timeouts.quic_usable(now),
        timeouts.asked_quic(now) == timeouts,
{
}

} // verus!
