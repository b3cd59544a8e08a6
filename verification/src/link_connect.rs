//! The connect of a long link: the dns, the proxy and the socket of it.
use vstd::prelude::*;
use crate::history::lemma_said;
use crate::ip_port::{copy_items, IpPortItem, IpSourceType};
use crate::long_link::{
    addresses_of, candidates_of, carried, tries_port, Address, Candidate, ConnectFail, LinkAnswers,
    LinkHost, LinkTold, LinkView, LocalIpStack, LongLink, ProxyFound, SocketFd, SocketProfile,
    ECT_DNS_MAKE_SOCKET_PREPARED, ECT_SOCKET_MAKE_SOCKET_PREPARED,
};
use crate::longlink_connect_monitor::LongLinkStatus;
use crate::task::Task;
use crate::task_profile::{ErrCmdType, ProxyInfo, ProxyType, ProxyView};

verus! {

impl LinkAnswers {
    /// Nothing was asked.
    pub open spec fn nothing() -> LinkAnswers {
        LinkAnswers {
            label: Seq::empty(),
            items: Seq::empty(),
            proxy: ProxyView::none(),
            debug_ip: Seq::empty(),
            minor_debug_ip: Seq::empty(),
            stack: LocalIpStack::Nothing,
            addresses: Seq::empty(),
            dns: Seq::empty(),
            proxy_address: arbitrary(),
            socket: SocketFd((-1) as i64),
            connected: SocketProfile {
                rtt: 0,
                index: 0,
                error_code: 0,
                total_cost: 0,
                is_0rtt: false,
            },
            local: None,
            up_label: Seq::empty(),
            up_type: 0,
        }
    }
}

impl<H: LinkHost> LongLink<H> {
    /// An error is reported, with the pair of the profile.
    pub(crate) fn network_report(&mut self, err_type: ErrCmdType, err_code: i32)
        ensures
            final(self)@ == old(self)@.reported(err_type, err_code),
    {
        self.host.network_report(err_type, err_code, self.profile.ip.as_str(), self.profile.port);
    }

    /// The smart heartbeat hears of a link that came up and of one that went
    /// away.
    fn notify_heartbeat(&mut self, status: LongLinkStatus) -> (r: (Ghost<Seq<char>>, Ghost<i32>))
        ensures
            final(self)@ == old(self)@.heard_all(
                LinkView::heartbeat_words(old(self)@.heartbeat, status, r.0@, r.1@),
            ),
            status != LongLinkStatus::Connected ==> r.0@ == Seq::<char>::empty() && r.1@ == 0,
    {
        proof {
            reveal(LinkView::heartbeat_words);
        }
        if self.encoder.noop_interval() > 0 {
            return (Ghost(Seq::empty()), Ghost(0));
        }
        match status {
            LongLinkStatus::Connected => {
                let net_detail = self.host.net_label();
                let net_type: i32 = self.host.net_type();
                if self.heartbeat {
                    self.host.heartbeat_established(net_detail.as_str(), net_type);
                }
                proof {
                    lemma_said(
                        old(self).host.heard(),
                        LinkTold::NetLabel { answer: net_detail@ },
                        LinkTold::NetType { answer: net_type },
                        LinkTold::HeartbeatEstablished { net_detail: net_detail@, net_type },
                    );
                }
                (Ghost(net_detail@), Ghost(net_type))
            },
            LongLinkStatus::ConnectFailed | LongLinkStatus::DisConnected => {
                if self.heartbeat {
                    self.host.heartbeat_disconnected();
                }
                proof {
                    lemma_said(
                        old(self).host.heard(),
                        LinkTold::HeartbeatDisconnected,
                        LinkTold::HeartbeatDisconnected,
                        LinkTold::HeartbeatDisconnected,
                    );
                }
                (Ghost(Seq::empty()), Ghost(0))
            },
            _ => (Ghost(Seq::empty()), Ghost(0)),
        }
    }

    /// The status went from one thing to another.
    pub(crate) fn change_status(&mut self, status: LongLinkStatus) -> (r: (
        Ghost<Seq<char>>,
        Ghost<i32>,
    ))
        ensures
            final(self)@ == old(self)@.status_set(status, r.0@, r.1@),
            status != LongLinkStatus::Connected ==> final(self)@ == old(self)@.status_said(status),
    {
        proof {
            reveal(LinkView::status_set);
        }
        if status == self.status {
            return (Ghost(Seq::empty()), Ghost(0));
        }
        self.status = status;
        let answers = self.notify_heartbeat(status);
        if status == LongLinkStatus::Connected {
            self.network_report(ErrCmdType::NoError, 0);
        }
        self.host.connection(status, self.config.name.as_str());
        proof {
            assert(self.host.heard() =~= old(self)@.told + old(self)@.status_words(
                status,
                answers.0@,
                answers.1@,
            ));
        }
        answers
    }

    /// The status went from one thing to another, and what that is told to: a
    /// status the link is already at is said once.
    pub fn set_status(&mut self, status: LongLinkStatus)
        ensures
            exists|label: Seq<char>, net_type: i32|
                final(self)@ == #[trigger] old(self)@.status_set(status, label, net_type),
    {
        let answers = self.change_status(status);
        assert(self@ == old(self)@.status_set(status, answers.0@, answers.1@));
    }

    /// Whether the connect goes through the proxy: the debug ips are asked
    /// about where they decide.
    fn ask_debug_ips(&mut self, proxy: &ProxyInfo, Ghost(a): Ghost<LinkAnswers>) -> (r: (
        bool,
        Ghost<LinkAnswers>,
    ))
        requires
            a.proxy == proxy@,
        ensures
            r.1@ == (LinkAnswers { debug_ip: r.1@.debug_ip, minor_debug_ip: r.1@.minor_debug_ip, ..a
            }),
            r.0 == LinkView::uses_proxy(old(self)@.config.link_type, r.1@),
            final(self)@ == old(self)@.debug_ips_asked(r.1@),
    {
        proof {
            reveal(LinkView::debug_questions);
        }
        if !proxy.valid || proxy.kind == ProxyType::Absent || proxy.kind == ProxyType::Http {
            return (false, Ghost(a));
        }
        let debug_ip = self.host.debug_ip();
        proof {
            lemma_said(
                old(self).host.heard(),
                LinkTold::DebugIp { answer: debug_ip@ },
                LinkTold::DebugIp { answer: debug_ip@ },
                LinkTold::DebugIp { answer: debug_ip@ },
            );
        }
        let ghost b = LinkAnswers { debug_ip: debug_ip@, ..a };
        if !debug_ip.as_str().is_empty() || self.config.link_type != Task::CHANNEL_MINOR_LONG {
            return (debug_ip.as_str().is_empty(), Ghost(b));
        }
        let minor = self.host.minorlong_debug_ip();
        proof {
            lemma_said(
                old(self).host.heard(),
                LinkTold::DebugIp { answer: debug_ip@ },
                LinkTold::MinorDebugIp { answer: minor@ },
                LinkTold::MinorDebugIp { answer: minor@ },
            );
        }
        let ghost c = LinkAnswers { minor_debug_ip: minor@, ..b };
        (minor.as_str().is_empty(), Ghost(c))
    }

    /// What the connect has to go by.
    fn ask_connect(&mut self, Ghost(a): Ghost<LinkAnswers>) -> (r: (
        Vec<IpPortItem>,
        ProxyInfo,
        bool,
        LocalIpStack,
        Ghost<LinkAnswers>,
    ))
        ensures
            r.4@ == (LinkAnswers {
                items: r.0@,
                proxy: r.1@,
                debug_ip: r.4@.debug_ip,
                minor_debug_ip: r.4@.minor_debug_ip,
                stack: r.3,
                ..a
            }),
            r.2 == LinkView::uses_proxy(old(self)@.config.link_type, r.4@),
            final(self).config == old(self).config,
            final(self)@ == old(self)@.connect_asked(r.4@),
    {
        let items = self.host.items(&self.config);
        let proxy = self.host.proxy();
        let (use_proxy, Ghost(b)) = self.ask_debug_ips(
            &proxy,
            Ghost(LinkAnswers { items: items@, proxy: proxy@, ..a }),
        );
        let stack = self.host.local_ip_stack();
        let ghost c = LinkAnswers { stack, ..b };
        proof {
            reveal(LinkView::connect_asked);
            lemma_debug_ips(old(self)@.config.link_type, b, c);
        }
        self.profile.nat64 = stack == LocalIpStack::IPv6;
        (items, proxy, use_proxy, stack, Ghost(c))
    }

    /// The candidates, with the addresses they are reached at.
    fn make_candidates(&mut self, items: &Vec<IpPortItem>, stack: Option<LocalIpStack>) -> (r: (
        Vec<Candidate>,
        Ghost<Seq<Address>>,
    ))
        ensures
            r.1@.len() == items@.len(),
            r.0@ == candidates_of(items@, r.1@),
            final(self)@ == old(self)@.addressed(items@, stack, r.1@, items@.len() as int),
    {
        let mut candidates: Vec<Candidate> = Vec::new();
        let ghost mut addresses: Seq<Address> = Seq::empty();
        let mut i: usize = 0;
        while i < items.len()
            invariant
                i <= items@.len(),
                addresses.len() == i,
                candidates@ == candidates_of(items@.take(i as int), addresses),
                self@ == old(self)@.addressed(items@, stack, addresses, i as int),
            decreases items@.len() - i,
        {
            let ghost before = addresses;
            let ghost mid = self@;
            let address = self.host.address(items[i].ip.as_str(), items[i].port, stack);
            proof {
                addresses = addresses.push(address);
                lemma_addressed(old(self)@, items@, stack, before, addresses, i as int);
            }
            candidates.push(Candidate { item: items[i].copy(), address });
            i += 1;
            assert(candidates@ =~= candidates_of(items@.take(i as int), addresses));
        }
        assert(items@.take(i as int) =~= items@);
        (candidates, Ghost(addresses))
    }

    /// Where the proxy is.
    fn find_proxy(
        &mut self,
        proxy: &ProxyInfo,
        use_proxy: bool,
        stack: LocalIpStack,
        Ghost(a): Ghost<LinkAnswers>,
    ) -> (r: (Result<Option<Address>, ConnectFail>, Ghost<LinkAnswers>))
        requires
            a.proxy == proxy@,
            a.stack == stack,
        ensures
            r.1@ == (LinkAnswers { dns: r.1@.dns, proxy_address: r.1@.proxy_address, ..a }),
            final(self)@ == old(self)@.proxy_asked(use_proxy, r.1@),
            match r.0 {
                Ok(Some(address)) => old(self)@.proxy_found(use_proxy, r.1@) == ProxyFound::At(
                    address,
                ),
                Ok(None) => old(self)@.proxy_found(use_proxy, r.1@) == ProxyFound::Direct,
                Err(fail) => old(self)@.proxy_found(use_proxy, r.1@) == ProxyFound::Unnamed && fail
                    == ConnectFail::NoProxyIp,
            },
    {
        proof {
            reveal(LinkView::proxy_asked);
        }
        if !use_proxy || self.profile.ip_type == IpSourceType::Debug {
            return (Ok(None), Ghost(a));
        }
        if !proxy.ip.as_str().is_empty() || proxy.host.as_str().is_empty() {
            let address = self.reach_proxy(proxy.ip.as_str(), proxy.port, stack);
            return (Ok(Some(address)), Ghost(LinkAnswers { proxy_address: address, ..a }));
        }
        let ips = self.ask_dns(proxy.host.as_str());
        if ips.len() == 0 {
            return (Err(ConnectFail::NoProxyIp), Ghost(LinkAnswers { dns: ips@, ..a }));
        }
        let address = self.reach_proxy(ips[0].as_str(), proxy.port, stack);
        (Ok(Some(address)), Ghost(LinkAnswers { dns: ips@, proxy_address: address, ..a }))
    }

    /// The ips of a host are asked for.
    fn ask_dns(&mut self, host: &str) -> (ips: Vec<String>)
        ensures
            final(self)@ == old(self)@.heard(LinkTold::Dns { host: host@, answer: ips@ }),
    {
        let ips = self.host.dns(host);
        ips
    }

    /// The proxy is found at an ip.
    fn reach_proxy(&mut self, ip: &str, port: u16, stack: LocalIpStack) -> (address: Address)
        ensures
            final(self)@ == old(self)@.proxied(ip@, port, stack, address),
    {
        let address = self.host.address(ip, port, Some(stack));
        proof {
            reveal(LinkView::proxied);
        }
        self.profile.ip_type = IpSourceType::Proxy;
        address
    }

    /// An error of the link itself, with no task of its own.
    pub(crate) fn run_response_error(&mut self, err_type: ErrCmdType, err_code: i32, report: bool)
        ensures
            final(self)@ == old(self)@.errored(err_type, err_code, report),
    {
        proof {
            reveal(LinkView::errored);
        }
        self.host.response_error(self.config.name.as_str(), err_type, err_code, &self.profile);
        if report {
            self.network_report(err_type, err_code);
        }
    }

    /// The connect came to nothing.
    fn fail_connect(&mut self, err_type: ErrCmdType, err_code: i32, report: bool)
        ensures
            final(self)@ == old(self)@.connect_failed(err_type, err_code, report),
    {
        proof {
            reveal(LinkView::connect_failed);
        }
        let _answers = self.change_status(LongLinkStatus::ConnectFailed);
        self.run_response_error(err_type, err_code, report);
    }

    /// The connect begins.
    fn begin_connect(&mut self, now: u64) -> (label: Ghost<Seq<char>>)
        ensures
            final(self)@ == old(self)@.connect_begun(now, label@),
            final(self).config == old(self).config,
    {
        proof {
            reveal(LinkView::connect_begun);
        }
        let label = self.host.net_label();
        let ghost answer = label@;
        self.profile.net_type = label;
        self.profile.start_time = now;
        let _answers = self.change_status(LongLinkStatus::Connecting);
        proof {
            reveal(LinkView::status_set);
        }
        self.profile.dns_time = now;
        Ghost(answer)
    }

    /// What the profile says until the connect comes back with the pair that
    /// won.
    fn prepare(
        &mut self,
        now: u64,
        items: &Vec<IpPortItem>,
        proxy: &ProxyInfo,
        Ghost(a): Ghost<LinkAnswers>,
    )
        requires
            items@.len() > 0,
            a.items == items@,
            a.proxy == proxy@,
        ensures
            final(self)@ == old(self)@.prepared(now, a),
            final(self).config == old(self).config,
    {
        proof {
            reveal(LinkView::prepared);
        }
        self.profile.proxy_info = proxy.copy();
        self.profile.ip_items = copy_items(items);
        self.profile.host = items[0].host.clone();
        self.profile.ip_type = items[0].source_type;
        self.profile.ip = items[0].ip.clone();
        self.profile.port = items[0].port;
        self.profile.dns_endtime = now;
    }

    /// The socket is asked for, and what it came to is written down.
    fn open_socket(
        &mut self,
        now: u64,
        candidates: &Vec<Candidate>,
        proxy: &ProxyInfo,
        Ghost(a): Ghost<LinkAnswers>,
    ) -> (r: (SocketFd, SocketProfile, Ghost<LinkAnswers>))
        ensures
            r.2@ == (LinkAnswers { socket: r.0, connected: r.1, ..a }),
            final(self)@ == old(self)@.opened(now, candidates@, proxy@, r.2@),
            final(self).disconnect_code == old(self).disconnect_code,
    {
        proof {
            reveal(LinkView::opened);
        }
        let addresses = addresses_to_try(candidates);
        let socket = self.host.connect(&addresses, proxy);
        let connected = self.host.connected();
        self.profile.conn_time = now;
        self.profile.conn_errcode = connected.error_code;
        self.profile.conn_rtt = connected.rtt;
        self.profile.conn_cost = connected.total_cost as u64;
        self.profile.is0rtt = connected.is_0rtt;
        (socket, connected, Ghost(LinkAnswers { socket, connected, ..a }))
    }

    /// The pair that won is written down.
    fn note_pair(&mut self, candidates: &Vec<Candidate>, index: i32)
        ensures
            final(self)@ == old(self)@.pair_won(candidates@, index),
    {
        proof {
            reveal(LinkView::pair_won);
        }
        self.profile.ip_index = index;
        if index >= 0 && (index as usize) < candidates.len() {
            let at: usize = index as usize;
            self.profile.host = candidates[at].item.host.clone();
            self.profile.ip_type = candidates[at].item.source_type;
            self.profile.ip = candidates[at].item.ip.clone();
            self.profile.port = candidates[at].item.port;
        }
    }

    /// The well known port of one candidate is written down.
    fn note_port(&mut self, candidates: &Vec<Candidate>, at: usize, Ghost(v): Ghost<LinkView>)
        requires
            at < candidates@.len(),
            old(self)@ == v.ports_tried(candidates@, at as int),
        ensures
            final(self)@ == v.ports_tried(candidates@, at + 1),
    {
        proof {
            reveal(LinkView::ports_tried);
            lemma_tries_port(candidates@, at as int, 443);
            lemma_tries_port(candidates@, at as int, 80);
        }
        let port: u16 = candidates[at].address.port;
        if port == 443 {
            self.profile.tried_443port = 1;
        } else if port == 80 {
            self.profile.tried_80port = 1;
        }
    }

    /// The well known ports of the candidates that lost are written down.
    fn note_ports(&mut self, candidates: &Vec<Candidate>, index: i32)
        ensures
            final(self)@ == old(self)@.ports_tried(candidates@, index as int),
    {
        let ghost v = self@;
        proof {
            lemma_no_ports(v, candidates@);
        }
        let mut i: usize = 0;
        while index > 0 && i < index as usize && i < candidates.len()
            invariant
                i <= candidates@.len(),
                i == 0 || i <= index,
                self@ == v.ports_tried(candidates@, i as int),
            decreases candidates@.len() - i,
        {
            self.note_port(candidates, i, Ghost(v));
            i += 1;
        }
        proof {
            lemma_ports_end(v, candidates@, i as int, index as int);
        }
    }

    /// The near end of the socket is written down.
    fn note_local(&mut self, socket: SocketFd) -> (local: Ghost<Option<Address>>)
        ensures
            final(self)@ == old(self)@.local_asked(socket, local@),
    {
        proof {
            reveal(LinkView::local_asked);
        }
        let local = self.host.local_address(socket);
        let ghost answer = local;
        match local {
            Some(address) => {
                self.profile.local_port = address.port;
                self.profile.local_ip = address.ip;
            },
            None => {},
        }
        Ghost(answer)
    }

    /// The socket is up: the pair that won is written down, and the link is
    /// connected.
    fn come_up(&mut self, candidates: &Vec<Candidate>, Ghost(a): Ghost<LinkAnswers>, socket: SocketFd, index: i32) -> (r:
        Ghost<LinkAnswers>)
        requires
            a.socket == socket,
            a.connected.index == index,
        ensures
            r@ == (LinkAnswers {
                local: r@.local,
                up_label: r@.up_label,
                up_type: r@.up_type,
                ..a
            }),
            final(self)@ == old(self)@.came_up(candidates@, r@),
    {
        proof {
            reveal(LinkView::came_up);
            reveal(LinkView::won);
        }
        self.note_pair(candidates, index);
        self.note_ports(candidates, index);
        let local = self.note_local(socket);
        let (label, net_type) = self.change_status(LongLinkStatus::Connected);
        Ghost(LinkAnswers { local: local@, up_label: label@, up_type: net_type@, ..a })
    }

    /// The socket is opened to the candidates, and the link is up with it or
    /// has failed.
    fn end_connect(
        &mut self,
        now: u64,
        candidates: &Vec<Candidate>,
        proxy: &ProxyInfo,
        Ghost(a): Ghost<LinkAnswers>,
    ) -> (r: (Result<SocketFd, ConnectFail>, Ghost<LinkAnswers>))
        ensures
            r.1@ == (LinkAnswers {
                socket: r.1@.socket,
                connected: r.1@.connected,
                local: r.1@.local,
                up_label: r.1@.up_label,
                up_type: r.1@.up_type,
                ..a
            }),
            (final(self)@, r.0) == old(self)@.connect_ended(now, candidates@, proxy@, r.1@),
    {
        proof {
            reveal(LinkView::connect_ended);
        }
        let ghost before = self@;
        let (socket, connected, Ghost(b)) = self.open_socket(now, candidates, proxy, Ghost(a));
        if !socket.is_valid() {
            if !self.disconnect_code.is_set() {
                self.fail_connect(ErrCmdType::Socket, ECT_SOCKET_MAKE_SOCKET_PREPARED, false);
            } else {
                let _answers = self.change_status(LongLinkStatus::ConnectFailed);
            }
            return (Err(ConnectFail::Connect { error_code: connected.error_code }), Ghost(b));
        }
        let Ghost(c) = self.come_up(candidates, Ghost(b), socket, connected.index);
        proof {
            lemma_opened(before, now, candidates@, proxy@, b, c);
        }
        (Ok(socket), Ghost(c))
    }

    /// What the connect has to go by, with the candidates turned into
    /// addresses.
    fn gather(&mut self, now: u64) -> (r: (
        Vec<IpPortItem>,
        ProxyInfo,
        bool,
        LocalIpStack,
        Vec<Candidate>,
        Ghost<LinkAnswers>,
    ))
        ensures
            r.5@.items == r.0@,
            r.5@.proxy == r.1@,
            r.2 == LinkView::uses_proxy(old(self)@.config.link_type, r.5@),
            r.5@.stack == r.3,
            r.4@ == candidates_of(r.0@, r.5@.addresses),
            final(self)@ == old(self)@.gathered(now, r.5@),
    {
        proof {
            reveal(LinkView::gathered);
        }
        let ghost before = self@;
        let label = self.begin_connect(now);
        let ghost begun = self@;
        let (items, proxy, use_proxy, stack, Ghost(a)) = self.ask_connect(
            Ghost(LinkAnswers { label: label@, ..LinkAnswers::nothing() }),
        );
        let wanted = if use_proxy {
            None
        } else {
            Some(stack)
        };
        let (candidates, addresses) = self.make_candidates(&items, wanted);
        let ghost b = LinkAnswers { addresses: addresses@, ..a };
        proof {
            lemma_asked(begun, a, b);
        }
        (items, proxy, use_proxy, stack, candidates, Ghost(b))
    }

    /// The socket the link is made on, or why there is none.
    ///
    /// Connecting and then connected or failed are said as it goes, and the
    /// profile is filled in with what the connect found out.
    pub fn connect_at(&mut self, now: u64) -> (r: Result<SocketFd, ConnectFail>)
        ensures
            exists|a: LinkAnswers| (final(self)@, r) == #[trigger] old(self)@.connect(now, a),
    {
        let ghost before = self@;
        let (items, proxy, use_proxy, stack, candidates, Ghost(a)) = self.gather(now);
        proof {
            reveal(LinkView::connect);
        }
        if items.len() == 0 {
            self.fail_connect(ErrCmdType::Dns, ECT_DNS_MAKE_SOCKET_PREPARED, true);
            assert((self@, Err::<SocketFd, ConnectFail>(ConnectFail::NoAddress)) == before.connect(
                now,
                a,
            ));
            return Err(ConnectFail::NoAddress);
        }
        self.prepare(now, &items, &proxy, Ghost(a));
        let (found, Ghost(b)) = self.find_proxy(&proxy, use_proxy, stack, Ghost(a));
        match found {
            Err(fail) => {
                self.fail_connect(ErrCmdType::Dns, ECT_DNS_MAKE_SOCKET_PREPARED, true);
                proof {
                    lemma_before_proxy(before, now, a, b);
                }
                assert((self@, Err::<SocketFd, ConnectFail>(fail)) == before.connect(now, b));
                Err(fail)
            },
            Ok(None) => {
                let no_proxy = ProxyInfo::none();
                let (r, Ghost(c)) = self.end_connect(now, &candidates, &no_proxy, Ghost(b));
                proof {
                    lemma_before_proxy(before, now, a, c);
                    lemma_proxy(before.gathered(now, a).prepared(now, a), use_proxy, b, c);
                }
                assert((self@, r) == before.connect(now, c));
                r
            },
            Ok(Some(address)) => {
                let through = ProxyInfo {
                    valid: proxy.valid,
                    kind: proxy.kind,
                    host: proxy.host,
                    ip: address.ip.clone(),
                    port: address.port,
                    username: proxy.username,
                    password: proxy.password,
                };
                let kept = carried_by(candidates, &address);
                let (r, Ghost(c)) = self.end_connect(now, &kept, &through, Ghost(b));
                proof {
                    lemma_before_proxy(before, now, a, c);
                    lemma_proxy(before.gathered(now, a).prepared(now, a), use_proxy, b, c);
                }
                assert((self@, r) == before.connect(now, c));
                r
            },
        }
    }
}

/// The first candidates are addressed the same whatever address the last one
/// has.
proof fn lemma_addressed(
    v: LinkView,
    items: Seq<IpPortItem>,
    stack: Option<LocalIpStack>,
    some: Seq<Address>,
    more: Seq<Address>,
    n: int,
)
    requires
        n <= some.len() <= more.len(),
        forall|i: int| 0 <= i < n ==> some[i] == more[i],
    ensures
        v.addressed(items, stack, some, n) == v.addressed(items, stack, more, n),
    decreases n,
{
    if n > 0 {
        lemma_addressed(v, items, stack, some, more, n - 1);
    }
}

/// The debug ips do not depend on what the local network carries.
proof fn lemma_debug_ips(link_type: i32, a: LinkAnswers, b: LinkAnswers)
    requires
        a.proxy == b.proxy,
        a.debug_ip == b.debug_ip,
        a.minor_debug_ip == b.minor_debug_ip,
    ensures
        forall|w: LinkView| #[trigger] w.debug_ips_asked(a) == w.debug_ips_asked(b),
        LinkView::uses_proxy(link_type, a) == LinkView::uses_proxy(link_type, b),
{
    reveal(LinkView::debug_questions);
}

/// The addresses of the candidates.
fn addresses_to_try(candidates: &Vec<Candidate>) -> (addresses: Vec<Address>)
    ensures
        addresses@ == addresses_of(candidates@),
{
    let mut addresses: Vec<Address> = Vec::new();
    let mut i: usize = 0;
    while i < candidates.len()
        invariant
            i <= candidates@.len(),
            addresses@ =~= addresses_of(candidates@.take(i as int)),
        decreases candidates@.len() - i,
    {
        addresses.push(candidates[i].address.copy());
        i += 1;
    }
    assert(candidates@.take(i as int) =~= candidates@);
    addresses
}

/// What a proxy can carry: a v4 proxy cannot carry v6 traffic, so those
/// candidates go; a single one stays.
fn carried_by(candidates: Vec<Candidate>, proxy: &Address) -> (kept: Vec<Candidate>)
    ensures
        kept@ == carried(candidates@, *proxy),
{
    if !proxy.is_v4 || candidates.len() <= 1 {
        return candidates;
    }
    let ghost fits = |c: Candidate| !c.address.is_v6;
    let mut kept: Vec<Candidate> = Vec::new();
    let mut i: usize = 0;
    while i < candidates.len()
        invariant
            i <= candidates@.len(),
            fits == (|c: Candidate| !c.address.is_v6),
            kept@ == candidates@.take(i as int).filter(fits),
        decreases candidates@.len() - i,
    {
        proof {
            reveal(Seq::filter);
            assert(candidates@.take(i + 1).drop_last() =~= candidates@.take(i as int));
        }
        if !candidates[i].address.is_v6 {
            kept.push(
                Candidate { item: candidates[i].item.copy(), address: candidates[i].address.copy() },
            );
        }
        i += 1;
    }
    assert(candidates@.take(i as int) =~= candidates@);
    kept
}

/// One more candidate tries its own port.
proof fn lemma_tries_port(candidates: Seq<Candidate>, i: int, port: u16)
    requires
        0 <= i < candidates.len(),
    ensures
        tries_port(candidates, i + 1, port) == (tries_port(candidates, i, port)
            || candidates[i].address.port == port),
{
    if tries_port(candidates, i + 1, port) {
        let k = choose|k: int|
            0 <= k < i + 1 && k < candidates.len() && (#[trigger] candidates[k]).address.port
                == port;
        assert(k < i ==> tries_port(candidates, i, port));
    }
    if tries_port(candidates, i, port) {
        let k = choose|k: int|
            0 <= k < i && k < candidates.len() && (#[trigger] candidates[k]).address.port == port;
        assert(candidates[k].address.port == port);
    }
    if candidates[i].address.port == port {
        assert(tries_port(candidates, i + 1, port));
    }
}

/// Nothing has been tried before the first candidate.
proof fn lemma_no_ports(v: LinkView, candidates: Seq<Candidate>)
    ensures
        v.ports_tried(candidates, 0) == v,
{
    reveal(LinkView::ports_tried);
}

/// There are no candidates behind the last one.
proof fn lemma_ports_end(v: LinkView, candidates: Seq<Candidate>, i: int, index: int)
    requires
        0 <= i <= candidates.len(),
        i == 0 || i <= index,
        index <= 0 || i == index || i == candidates.len(),
    ensures
        v.ports_tried(candidates, i) == v.ports_tried(candidates, index),
{
    lemma_tries_port_end(candidates, i, index, 443);
    lemma_tries_port_end(candidates, i, index, 80);
    reveal(LinkView::ports_tried);
}

/// There are no candidates behind the last one.
proof fn lemma_tries_port_end(candidates: Seq<Candidate>, i: int, index: int, port: u16)
    requires
        0 <= i <= candidates.len(),
        i == 0 || i <= index,
        index <= 0 || i == index || i == candidates.len(),
    ensures
        tries_port(candidates, i, port) == tries_port(candidates, index, port),
{
    if tries_port(candidates, index, port) {
        let k = choose|k: int|
            0 <= k < index && k < candidates.len() && (#[trigger] candidates[k]).address.port
                == port;
        assert(candidates[k].address.port == port);
        assert(tries_port(candidates, i, port));
    }
    if tries_port(candidates, i, port) {
        let k = choose|k: int|
            0 <= k < i && k < candidates.len() && (#[trigger] candidates[k]).address.port == port;
        assert(candidates[k].address.port == port);
        assert(tries_port(candidates, index, port));
    }
}

/// What was asked does not depend on what came later.
proof fn lemma_asked(v: LinkView, a: LinkAnswers, b: LinkAnswers)
    requires
        b == (LinkAnswers { addresses: b.addresses, ..a }),
    ensures
        v.connect_asked(a) == v.connect_asked(b),
{
    reveal(LinkView::connect_asked);
    reveal(LinkView::debug_questions);
}

/// The same, of everything before the proxy.
proof fn lemma_before_proxy(v: LinkView, now: u64, a: LinkAnswers, b: LinkAnswers)
    requires
        a.label == b.label,
        a.items == b.items,
        a.proxy == b.proxy,
        a.debug_ip == b.debug_ip,
        a.minor_debug_ip == b.minor_debug_ip,
        a.stack == b.stack,
        a.addresses == b.addresses,
    ensures
        v.gathered(now, a) == v.gathered(now, b),
        v.gathered(now, a).prepared(now, a) == v.gathered(now, b).prepared(now, b),
        LinkView::uses_proxy(v.config.link_type, a) == LinkView::uses_proxy(
            v.config.link_type,
            b,
        ),
{
    reveal(LinkView::gathered);
    reveal(LinkView::connect_asked);
    reveal(LinkView::debug_questions);
    reveal(LinkView::prepared);
}

/// The same, of the proxy.
proof fn lemma_proxy(v: LinkView, use_proxy: bool, a: LinkAnswers, b: LinkAnswers)
    requires
        a.proxy == b.proxy,
        a.stack == b.stack,
        a.dns == b.dns,
        a.proxy_address == b.proxy_address,
    ensures
        v.proxy_found(use_proxy, a) == v.proxy_found(use_proxy, b),
        v.proxy_asked(use_proxy, a) == v.proxy_asked(use_proxy, b),
{
    reveal(LinkView::proxy_asked);
}

/// The same, of the socket.
proof fn lemma_opened(
    v: LinkView,
    now: u64,
    candidates: Seq<Candidate>,
    proxy: ProxyView,
    a: LinkAnswers,
    b: LinkAnswers,
)
    requires
        a.socket == b.socket,
        a.connected == b.connected,
    ensures
        v.opened(now, candidates, proxy, a) == v.opened(now, candidates, proxy, b),
{
    reveal(LinkView::opened);
}

/// A status the link is already at is said once: saying it again tells nobody
/// anything.
pub proof fn law_a_status_is_said_once(
    link: LinkView,
    status: LongLinkStatus,
    label: Seq<char>,
    net_type: i32,
    label_again: Seq<char>,
    net_type_again: i32,
)
    ensures
        link.status_set(status, label, net_type).status_set(status, label_again, net_type_again)
            == link.status_set(status, label, net_type),
        link.status_set(status, label, net_type).status == status,
        link.status != status ==> link.status_set(status, label, net_type).told.last() == (
        LinkTold::Connection { status, name: link.config.name@ }),
{
    reveal(LinkView::status_set);
}

/// A connect leaves the link up when it comes back with a socket, and failed
/// when it does not.
pub proof fn law_a_connect_is_up_or_failed(link: LinkView, now: u64, a: LinkAnswers)
    ensures
        ({
            let (after, r) = link.connect(now, a);
            &&& r is Ok ==> after.status == LongLinkStatus::Connected
            &&& r is Err ==> after.status == LongLinkStatus::ConnectFailed
            &&& r is Ok <==> a.items.len() > 0 && a.socket.0 >= 0 && !(LinkView::uses_proxy(
                link.config.link_type,
                a,
            ) && a.items[0].source_type != IpSourceType::Debug && LinkView::proxy_named_by_host(a)
                && a.dns.len() == 0)
        }),
{
    reveal(LinkView::connect);
    reveal(LinkView::connect_ended);
    reveal(LinkView::connect_failed);
    reveal(LinkView::came_up);
    reveal(LinkView::status_set);
    reveal(LinkView::errored);
    reveal(LinkView::prepared);
}

} // verus!
