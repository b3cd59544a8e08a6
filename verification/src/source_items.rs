//! The pairs a list of hosts is made of.
//!
//! Two things decide the whole list: a host with a debug ip never reaches dns
//! at all, and a pair that came from dns is sorted and filtered by its history
//! while a pair that came from the backup list is only shuffled. The count each
//! host is allowed to add is [`NUM_MAKE_COUNT`] while the app is in the
//! foreground, and one fewer spread over the hosts while it is not.
use vstd::prelude::*;
use crate::ip_port::{
    add_on_ports, all_on_ports, make_pair, make_pairs, on_ports, pair_views, tcp_pair, IpPortItem,
    IpPortView, IpSourceType,
};
use crate::net_source::{
    copy_ports, ExtraInfo, LonglinkConfig, NetSource, SourceHost, SourceTold, SourceView,
    NUM_MAKE_COUNT,
};
use crate::task::{copy_texts, same_text, texts, Task};

verus! {

/// What a lookup changes of a source: the backup ips, and what the host heard.
pub struct Lookup {
    pub backup: Map<Seq<char>, Seq<Seq<char>>>,
    pub told: Seq<SourceTold>,
}

impl SourceView {
    /// What a lookup may change.
    pub open spec fn lookup(self) -> Lookup {
        Lookup { backup: self.backup, told: self.told }
    }

    /// The source after a lookup.
    pub open spec fn settled(self, look: Lookup) -> SourceView {
        SourceView { backup: look.backup, told: look.told, ..self }
    }
}

/// The first text of a list; a list without one gives the empty text.
pub open spec fn first_text(list: Seq<Seq<char>>) -> Seq<char> {
    if list.len() == 0 {
        seq![]
    } else {
        list[0]
    }
}

/// The first text of a list; a list without one gives the empty text.
fn first_host(host_list: &[String]) -> (host: String)
    ensures
        host@ == first_text(texts(host_list@)),
{
    if host_list.len() == 0 {
        let none = String::new();
        assert(none@ =~= seq![]);
        none
    } else {
        host_list[0].clone()
    }
}

/// Where the first host stands that has an entry.
pub open spec fn first_known<V>(hosts: Seq<Seq<char>>, map: Map<Seq<char>, V>) -> Option<int>
    decreases hosts.len(),
{
    if hosts.len() == 0 {
        None
    } else {
        match first_known(hosts.drop_last(), map) {
            Some(at) => Some(at),
            None => if map.contains_key(hosts.last()) {
                Some(hosts.len() - 1)
            } else {
                None
            },
        }
    }
}

/// What the earlier hosts gave is what the whole list gives.
proof fn lemma_first_known<V>(hosts: Seq<Seq<char>>, map: Map<Seq<char>, V>, k: int, at: int)
    requires
        0 <= k <= hosts.len(),
        first_known(hosts.take(k), map) == Some(at),
    ensures
        first_known(hosts, map) == Some(at),
    decreases hosts.len() - k,
{
    if k < hosts.len() {
        assert(hosts.take(k + 1).drop_last() =~= hosts.take(k));
        lemma_first_known(hosts, map, k + 1, at);
    } else {
        assert(hosts.take(k) =~= hosts);
    }
}

impl SourceView {
    /// The pairs a debug setting gives a long link: the debug ip of any of the
    /// hosts the app set wins, and then it is the one of the link's own kind.
    pub open spec fn longlink_debug(
        self,
        link_type: i32,
        host_list: Seq<Seq<char>>,
    ) -> Option<Seq<IpPortView>> {
        match first_known(self.longlink_hosts, self.host_debugip) {
            Some(at) => Some(
                on_ports(
                    self.host_debugip[self.longlink_hosts[at]],
                    self.longlink_ports,
                    IpSourceType::Debug,
                    self.longlink_hosts[at],
                ),
            ),
            None => if link_type == Task::CHANNEL_LONG && self.longlink_debugip.len() > 0 {
                Some(
                    on_ports(
                        self.longlink_debugip,
                        self.longlink_ports,
                        IpSourceType::Debug,
                        first_text(self.longlink_hosts),
                    ),
                )
            } else if link_type == Task::CHANNEL_MINOR_LONG && self.minorlong_debugip.len() > 0 {
                Some(
                    on_ports(
                        self.minorlong_debugip,
                        self.longlink_ports,
                        IpSourceType::Debug,
                        first_text(host_list),
                    ),
                )
            } else {
                None
            },
        }
    }

    /// The pair a debug setting gives a short link: the one of the cgi wins,
    /// then the debug ip of any host in the list, then the one of every short
    /// link.
    pub open spec fn shortlink_debug(self, host_list: Seq<Seq<char>>, cgi: Seq<char>) -> Option<
        IpPortView,
    > {
        if self.cgi_debug.contains_key(cgi) {
            Some(
                tcp_pair(
                    self.cgi_debug[cgi].0,
                    self.cgi_debug[cgi].1,
                    IpSourceType::Debug,
                    first_text(host_list),
                ),
            )
        } else {
            match first_known(host_list, self.host_debugip) {
                Some(at) => Some(
                    tcp_pair(
                        self.host_debugip[host_list[at]],
                        self.shortlink_port,
                        IpSourceType::Debug,
                        host_list[at],
                    ),
                ),
                None => if self.shortlink_debugip.len() > 0 {
                    Some(
                        tcp_pair(
                            self.shortlink_debugip,
                            self.shortlink_port,
                            IpSourceType::Debug,
                            first_text(host_list),
                        ),
                    )
                } else {
                    None
                },
            }
        }
    }
}

/// The contents of a list of pairs that may not be there.
pub open spec fn made_view(items: Option<Vec<IpPortItem>>) -> Option<Seq<IpPortView>> {
    match items {
        Some(items) => Some(pair_views(items@)),
        None => None,
    }
}

impl<H: SourceHost> NetSource<H> {
    /// The first host of a list that has a debug ip, and the ip.
    fn first_debug(&self, hosts: &[String]) -> (found: Option<(String, String)>)
        ensures
            match (found, first_known(texts(hosts@), self@.host_debugip)) {
                (Some((host, ip)), Some(at)) => {
                    &&& host@ == texts(hosts@)[at]
                    &&& ip@ == self@.host_debugip[texts(hosts@)[at]]
                },
                (None, None) => true,
                _ => false,
            },
    {
        let mut i: usize = 0;
        assert(texts(hosts@.take(0)) =~= seq![]);
        while i < hosts.len()
            invariant
                i <= hosts@.len(),
                first_known(texts(hosts@.take(i as int)), self@.host_debugip) is None,
            decreases hosts@.len() - i,
        {
            proof {
                let next = texts(hosts@.take(i + 1));
                assert(next.drop_last() =~= texts(hosts@.take(i as int)));
                assert(next.last() == hosts@[i as int]@);
                assert(next =~= texts(hosts@).take(i + 1));
            }
            if let Some(ip) = self.host_debugip.get(hosts[i].as_str()) {
                proof {
                    lemma_first_known(texts(hosts@), self@.host_debugip, i + 1, i as int);
                }
                return Some((hosts[i].clone(), ip.clone()));
            }
            i += 1;
        }
        assert(hosts@.take(i as int) =~= hosts@);
        None
    }

    /// One debug ip on every port of the long link.
    fn debug_items(&self, ip: &str, host: &str) -> (items: Vec<IpPortItem>)
        ensures
            pair_views(items@) == on_ports(
                ip@,
                self@.longlink_ports,
                IpSourceType::Debug,
                host@,
            ),
    {
        let mut items: Vec<IpPortItem> = Vec::new();
        assert(pair_views(items@) =~= seq![]);
        add_on_ports(&mut items, ip, &self.longlink_ports, IpSourceType::Debug, host);
        assert(pair_views(items@) =~= on_ports(
            ip@,
            self@.longlink_ports,
            IpSourceType::Debug,
            host@,
        ));
        items
    }

    /// The pairs a debug setting gives a long link. An app that set a debug ip
    /// but no ports gets a link with no pairs at all, and not a dns lookup.
    fn longlink_debug_ip_port(&self, config: &LonglinkConfig) -> (items: Option<Vec<IpPortItem>>)
        ensures
            made_view(items) == self@.longlink_debug(config.link_type, texts(config.host_list@)),
    {
        if let Some((host, ip)) = self.first_debug(self.longlink_hosts.as_slice()) {
            return Some(self.debug_items(ip.as_str(), host.as_str()));
        }
        if config.link_type == Task::CHANNEL_LONG && !self.longlink_debugip.as_str().is_empty() {
            let host = first_host(self.longlink_hosts.as_slice());
            return Some(self.debug_items(self.longlink_debugip.as_str(), host.as_str()));
        }
        if config.link_type == Task::CHANNEL_MINOR_LONG
            && !self.minorlong_debugip.as_str().is_empty() {
            let host = first_host(config.host_list.as_slice());
            return Some(self.debug_items(self.minorlong_debugip.as_str(), host.as_str()));
        }
        None
    }

    /// The pair a debug setting gives a short link.
    fn shortlink_debug_ip_port(&self, host_list: &[String], cgi: &str) -> (items: Option<
        IpPortItem,
    >)
        ensures
            match (items, self@.shortlink_debug(texts(host_list@), cgi@)) {
                (Some(item), Some(pair)) => item@ == pair,
                (None, None) => true,
                _ => false,
            },
    {
        if let Some(pair) = self.cgi_debug.get(cgi) {
            let host = first_host(host_list);
            return Some(make_pair(pair.0.as_str(), pair.1, IpSourceType::Debug, host.as_str()));
        }
        if let Some((host, ip)) = self.first_debug(host_list) {
            return Some(
                make_pair(ip.as_str(), self.shortlink_port, IpSourceType::Debug, host.as_str()),
            );
        }
        if self.shortlink_debugip.as_str().is_empty() {
            return None;
        }
        let host = first_host(host_list);
        Some(
            make_pair(
                self.shortlink_debugip.as_str(),
                self.shortlink_port,
                IpSourceType::Debug,
                host.as_str(),
            ),
        )
    }
}

/// What one host is asked for: how many pairs the list may hold once the host
/// is done, whether this is the backup pass, and whether the list is for a long
/// link.
#[derive(Debug, Clone, Copy)]
pub struct Make {
    pub count: usize,
    pub is_backup: bool,
    pub is_longlink: bool,
}

/// What the host of the source answers while the pairs of one host are made.
pub struct MakeAnswers {
    /// The app's own dns.
    pub first: Seq<Seq<char>>,
    /// The fallback.
    pub second: Seq<Seq<char>>,
    /// The pairs as their history sorts them.
    pub sorted: Seq<IpPortView>,
    /// The numbers the pairs are shuffled by.
    pub picks: Seq<usize>,
}

/// The ips of a list of pairs.
pub open spec fn ips_of(pairs: Seq<IpPortView>) -> Seq<Seq<char>> {
    pairs.map_values(|pair: IpPortView| pair.ip)
}

/// The ips the backup pass keeps, and how many pairs they make: an ip the list
/// has already is left out as long as more pairs are there than are asked for.
pub open spec fn kept_ips(
    ips: Seq<Seq<char>>,
    known: Seq<Seq<char>>,
    room: int,
    required: int,
    step: int,
) -> (Seq<Seq<char>>, int)
    decreases ips.len(),
{
    if ips.len() == 0 {
        (seq![], room)
    } else {
        let (kept, left) = kept_ips(ips.drop_last(), known, room, required, step);
        if left > required && known.contains(ips.last()) {
            (kept, left - step)
        } else {
            (kept.push(ips.last()), left)
        }
    }
}

/// How many more pairs the list may hold.
pub open spec fn room_left(count: int, so_far: int) -> int {
    if count >= so_far {
        count - so_far
    } else {
        0
    }
}

/// How many pairs the backup pass asks for: never fewer than the ports.
pub open spec fn required_pairs(count: int, so_far: int, ports: int) -> int {
    if room_left(count, so_far) < ports {
        room_left(count, so_far) + ports
    } else {
        room_left(count, so_far)
    }
}

/// The list after so many picks, from its end down.
pub open spec fn shuffled<A>(items: Seq<A>, picks: Seq<usize>, n: int) -> Seq<A>
    decreases n,
{
    if n <= 0 {
        items
    } else {
        let before = shuffled(items, picks, n - 1);
        let index = items.len() - n;
        let picked = picks[n - 1] as int % (index + 1);
        before.update(index, before[picked]).update(picked, before[index])
    }
}

/// How many picks a shuffle takes.
pub open spec fn pick_count(len: int) -> int {
    if len == 0 {
        0
    } else {
        len - 1
    }
}

/// What a shuffle asks.
pub open spec fn shuffle_words(len: int, picks: Seq<usize>, n: int) -> Seq<SourceTold> {
    Seq::new(
        n as nat,
        |k: int| SourceTold::Random { bound: len - k, answer: picks[k] },
    )
}

/// How many pairs the history is asked for; a negative number keeps them all.
pub open spec fn need_of(count: int, so_far: int) -> int {
    if count < so_far {
        -1
    } else if count - so_far > i32::MAX {
        i32::MAX as int
    } else {
        count - so_far
    }
}

/// What came of one host.
pub struct Made {
    pub look: Lookup,
    /// Nothing is a host no dns knows.
    pub pairs: Option<Seq<IpPortView>>,
}

impl SourceView {
    /// The ports of a list.
    pub open spec fn ports_of(self, make: Make) -> Seq<u16> {
        if !make.is_longlink {
            seq![self.shortlink_port]
        } else if make.is_backup && self.low_ports.len() > 0 {
            self.low_ports
        } else {
            self.longlink_ports
        }
    }

    /// The ips of a host in the first pass.
    pub open spec fn front_ips(a: MakeAnswers) -> Seq<Seq<char>> {
        if a.first.len() > 0 {
            a.first
        } else {
            a.second
        }
    }

    /// Where they came from.
    pub open spec fn front_source(a: MakeAnswers) -> IpSourceType {
        if a.first.len() > 0 {
            IpSourceType::NewDns
        } else {
            IpSourceType::Dns
        }
    }

    /// What the dns is asked in the first pass: the app's own, and the fallback
    /// when that answered nothing.
    pub open spec fn front_words(
        host: Seq<char>,
        is_longlink: bool,
        extra: Seq<(String, String)>,
        a: MakeAnswers,
    ) -> Seq<SourceTold> {
        let first = seq![SourceTold::NewDns { host, is_longlink, extra, answer: a.first }];
        if a.first.len() > 0 {
            first
        } else {
            first.push(SourceTold::Dns { host, answer: a.second })
        }
    }

    /// The pairs of one host in the first pass: those its dns gives, sorted and
    /// filtered by their history.
    pub open spec fn makes_front(
        self,
        now: u64,
        so_far: Seq<IpPortView>,
        host: Seq<char>,
        extra: Seq<(String, String)>,
        make: Make,
        a: MakeAnswers,
    ) -> Made {
        let asked = self.told + Self::front_words(host, make.is_longlink, extra, a);
        let ips = Self::front_ips(a);
        Made {
            look: Lookup {
                backup: self.backup,
                told: if ips.len() == 0 {
                    asked
                } else {
                    asked.push(
                        SourceTold::Sort {
                            now,
                            items: all_on_ports(
                                ips,
                                self.ports_of(make),
                                Self::front_source(a),
                                host,
                            ),
                            need: need_of(make.count as int, so_far.len() as int),
                            answer: a.sorted,
                        },
                    )
                },
            },
            pairs: if ips.len() == 0 {
                None
            } else {
                Some(a.sorted)
            },
        }
    }

    /// The ips of a host in the backup pass: those the app set, or what the
    /// fallback answers.
    pub open spec fn spare_ips(self, host: Seq<char>, a: MakeAnswers) -> Seq<Seq<char>> {
        if self.backup_of(host).len() > 0 {
            self.backup_of(host)
        } else {
            a.second
        }
    }

    /// What the fallback is asked in the backup pass.
    pub open spec fn spare_words(self, host: Seq<char>, a: MakeAnswers) -> Seq<SourceTold> {
        if self.backup_of(host).len() > 0 {
            seq![]
        } else {
            seq![SourceTold::Dns { host, answer: a.second }]
        }
    }

    /// The backup ips after the pass: what the fallback answered is kept for
    /// the next time the host is asked for.
    pub open spec fn spare_kept(self, host: Seq<char>, a: MakeAnswers) -> Map<
        Seq<char>,
        Seq<Seq<char>>,
    > {
        if self.backup_of(host).len() == 0 && a.second.len() > 0 {
            self.backup.insert(host, a.second)
        } else {
            self.backup
        }
    }

    /// The pairs the backup pass shuffles.
    pub open spec fn spare_pairs(
        self,
        so_far: Seq<IpPortView>,
        host: Seq<char>,
        make: Make,
        a: MakeAnswers,
    ) -> Seq<IpPortView> {
        let ips = self.spare_ips(host, a);
        let ports = self.ports_of(make);
        let kept = if ports.len() == 0 {
            ips
        } else {
            kept_ips(
                ips,
                ips_of(so_far),
                (ips.len() * ports.len()) as int,
                required_pairs(make.count as int, so_far.len() as int, ports.len() as int),
                ports.len() as int,
            ).0
        };
        all_on_ports(kept, ports, IpSourceType::Backup, host)
    }

    /// The pairs of one host in the backup pass: shuffled, and no more of them
    /// than the list has room for.
    pub open spec fn makes_spare(
        self,
        so_far: Seq<IpPortView>,
        host: Seq<char>,
        make: Make,
        a: MakeAnswers,
    ) -> Made {
        let asked = self.told + self.spare_words(host, a);
        let ips = self.spare_ips(host, a);
        let pairs = self.spare_pairs(so_far, host, make, a);
        let n = pick_count(pairs.len() as int);
        let room = room_left(make.count as int, so_far.len() as int);
        Made {
            look: Lookup {
                backup: self.spare_kept(host, a),
                told: if ips.len() == 0 {
                    asked
                } else {
                    asked + shuffle_words(pairs.len() as int, a.picks, n)
                },
            },
            pairs: if ips.len() == 0 {
                None
            } else if pairs.len() <= room {
                Some(shuffled(pairs, a.picks, n))
            } else {
                Some(shuffled(pairs, a.picks, n).take(room))
            },
        }
    }

    /// The pairs of one host.
    #[verifier::opaque]
    pub open spec fn makes(
        self,
        now: u64,
        so_far: Seq<IpPortView>,
        host: Seq<char>,
        extra: Seq<(String, String)>,
        make: Make,
        a: MakeAnswers,
    ) -> Made {
        if make.is_backup {
            self.makes_spare(so_far, host, make, a)
        } else {
            self.makes_front(now, so_far, host, extra, make, a)
        }
    }
}

/// A shuffle keeps the length of the list.
proof fn lemma_shuffled_len<A>(items: Seq<A>, picks: Seq<usize>, n: int)
    requires
        0 <= n <= pick_count(items.len() as int),
    ensures
        shuffled(items, picks, n).len() == items.len(),
    decreases n,
{
    if n > 0 {
        lemma_shuffled_len(items, picks, n - 1);
    }
}

/// Only the picks that were made matter.
proof fn lemma_shuffled_by<A>(items: Seq<A>, left: Seq<usize>, right: Seq<usize>, n: int)
    requires
        0 <= n <= left.len(),
        n <= right.len(),
        forall|k: int| 0 <= k < n ==> left[k] == right[k],
    ensures
        shuffled(items, left, n) == shuffled(items, right, n),
    decreases n,
{
    if n > 0 {
        lemma_shuffled_by(items, left, right, n - 1);
    }
}

/// A shuffle only changes the order: every pair of the list is still there, as
/// often as it was.
pub proof fn law_a_shuffle_keeps_the_pairs<A>(items: Seq<A>, picks: Seq<usize>, n: int)
    requires
        0 <= n <= pick_count(items.len() as int),
    ensures
        shuffled(items, picks, n).to_multiset() == items.to_multiset(),
        shuffled(items, picks, n).len() == items.len(),
    decreases n,
{
    broadcast use vstd::seq_lib::group_to_multiset_ensures;

    lemma_shuffled_len(items, picks, n);
    if n > 0 {
        law_a_shuffle_keeps_the_pairs(items, picks, n - 1);
        let before = shuffled(items, picks, n - 1);
        let index = items.len() - n;
        let picked = picks[n - 1] as int % (index + 1);
        let middle = before.update(index, before[picked]);
        vstd::seq_lib::to_multiset_update(before, index, before[picked]);
        vstd::seq_lib::to_multiset_update(middle, picked, before[index]);
        assert(middle.update(picked, before[index]).to_multiset() =~= before.to_multiset());
    }
}

/// The items were shuffled by the picks the host answered.
pub open spec fn shuffles<A>(
    before: SourceView,
    after: SourceView,
    from: Seq<A>,
    to: Seq<A>,
    picks: Seq<usize>,
) -> bool {
    let n = pick_count(from.len() as int);
    &&& after == before.settled(
        (Lookup {
            told: before.told + shuffle_words(from.len() as int, picks, n),
            ..before.lookup()
        }),
    )
    &&& to == shuffled(from, picks, n)
}

/// The ips the backup pass keeps.
fn keep_ips(
    ips: &Vec<String>,
    so_far: &Vec<IpPortItem>,
    count: usize,
    ports: usize,
) -> (kept: Vec<String>)
    ensures
        texts(kept@) == kept_ips(
            texts(ips@),
            ips_of(pair_views(so_far@)),
            ips@.len() * ports as int,
            required_pairs(count as int, so_far@.len() as int, ports as int),
            ports as int,
        ).0,
{
    let left: usize = count.saturating_sub(so_far.len());
    let total: usize = ips.len();
    let required: u128 = if left < ports {
        left as u128 + ports as u128
    } else {
        left as u128
    };
    proof {
        assert(ips@.len() * ports as int <= usize::MAX * usize::MAX) by (nonlinear_arith)
            requires
                ips@.len() == total,
                0 <= ports <= usize::MAX,
        ;
        assert(usize::MAX * usize::MAX <= u128::MAX) by (nonlinear_arith)
            requires
                usize::MAX <= u64::MAX,
        ;
        assert(0 <= ips@.len() * ports as int) by (nonlinear_arith)
            requires
                0 <= ports,
        ;
    }
    let mut room: u128 = total as u128 * ports as u128;
    let ghost all = texts(ips@);
    let ghost known = ips_of(pair_views(so_far@));
    let ghost start = room as int;
    let mut kept: Vec<String> = Vec::new();
    let mut i: usize = 0;
    assert(texts(kept@) =~= seq![]);
    assert(all.take(0) =~= seq![]);
    while i < ips.len()
        invariant
            i <= ips@.len(),
            all == texts(ips@),
            known == ips_of(pair_views(so_far@)),
            required == required_pairs(count as int, so_far@.len() as int, ports as int),
            required >= ports,
            (texts(kept@), room as int) == kept_ips(
                all.take(i as int),
                known,
                start,
                required as int,
                ports as int,
            ),
        decreases ips@.len() - i,
    {
        proof {
            assert(all.take(i + 1).drop_last() =~= all.take(i as int));
            assert(all.take(i + 1).last() == ips@[i as int]@);
        }
        let ghost before = kept@;
        if room > required && has_ip(so_far, ips[i].as_str()) {
            room = room - ports as u128;
        } else {
            kept.push(ips[i].clone());
            assert(texts(kept@) =~= texts(before).push(ips@[i as int]@));
        }
        i += 1;
    }
    assert(all.take(i as int) =~= all);
    kept
}

/// A pair of the list has the ip.
fn has_ip(items: &Vec<IpPortItem>, ip: &str) -> (found: bool)
    ensures
        found == ips_of(pair_views(items@)).contains(ip@),
{
    let ghost known = ips_of(pair_views(items@));
    let mut i: usize = 0;
    while i < items.len()
        invariant
            i <= items@.len(),
            known == ips_of(pair_views(items@)),
            forall|k: int| 0 <= k < i ==> known[k] != ip@,
        decreases items@.len() - i,
    {
        assert(known[i as int] == items@[i as int].ip@);
        if same_text(items[i].ip.as_str(), ip) {
            return true;
        }
        i += 1;
    }
    false
}

impl<H: SourceHost> NetSource<H> {
    /// The app's own dns is asked.
    fn ask_new_dns(&mut self, host: &str, is_longlink: bool, extra: &ExtraInfo) -> (ips: Vec<
        String,
    >)
        ensures
            final(self)@ == old(self)@.said(
                SourceTold::NewDns {
                    host: host@,
                    is_longlink,
                    extra: extra@,
                    answer: texts(ips@),
                },
            ),
    {
        let ips = self.host.new_dns(host, is_longlink, extra);
        ips
    }

    /// The fallback is asked.
    fn ask_dns(&mut self, host: &str) -> (ips: Vec<String>)
        ensures
            final(self)@ == old(self)@.said(SourceTold::Dns { host: host@, answer: texts(ips@) }),
    {
        let ips = self.host.dns(host);
        ips
    }

    /// A number is asked for.
    fn ask_random(&mut self, bound: usize) -> (answer: usize)
        ensures
            final(self)@ == old(self)@.said(SourceTold::Random { bound: bound as int, answer }),
    {
        self.host.random(bound)
    }

    /// The history sorts and filters the pairs.
    fn ask_sort(&mut self, now: u64, items: Vec<IpPortItem>, need: i32) -> (sorted: Vec<
        IpPortItem,
    >)
        ensures
            final(self)@ == old(self)@.said(
                SourceTold::Sort {
                    now,
                    items: pair_views(items@),
                    need: need as int,
                    answer: pair_views(sorted@),
                },
            ),
    {
        let ghost asked = pair_views(items@);
        let sorted = self.host.sort_and_filter(now, items, need);
        sorted
    }

    /// The ports of a list.
    fn list_ports(&self, make: Make) -> (ports: Vec<u16>)
        ensures
            ports@ == self@.ports_of(make),
    {
        if !make.is_longlink {
            let mut ports: Vec<u16> = Vec::new();
            ports.push(self.shortlink_port);
            return ports;
        }
        if make.is_backup && self.low_priority_longlink_ports.len() > 0 {
            return copy_ports(&self.low_priority_longlink_ports);
        }
        copy_ports(&self.longlink_ports)
    }

    /// The pairs one host just added change places, from the last one down.
    fn shuffle(&mut self, items: &mut Vec<IpPortItem>)
        ensures
            exists|picks: Seq<usize>| #[trigger]
                shuffles(old(self)@, final(self)@, old(items)@, final(items)@, picks),
    {
        let len: usize = items.len();
        let ghost start = items@;
        let ghost before = self@;
        let ghost mut picks: Seq<usize> = seq![];
        if len == 0 {
            proof {
                assert(before.told + shuffle_words(0, picks, 0) =~= before.told);
                assert(shuffles(before, self@, start, items@, picks));
            }
            return;
        }
        let mut n: usize = 0;
        assert(before.told + shuffle_words(len as int, picks, 0) =~= before.told);
        while n < len - 1
            invariant
                len == start.len(),
                0 <= n <= len - 1,
                n == picks.len(),
                items@.len() == len,
                items@ == shuffled(start, picks, n as int),
                self@ == before.settled(
                    (Lookup {
                        told: before.told + shuffle_words(len as int, picks, n as int),
                        ..before.lookup()
                    }),
                ),
            decreases len - 1 - n,
        {
            let index: usize = len - 1 - n;
            let ghost earlier = picks;
            let answer = self.ask_random(index + 1);
            let picked: usize = answer % (index + 1);
            proof {
                picks = picks.push(answer);
                lemma_shuffled_by(start, earlier, picks, n as int);
                assert(before.told + shuffle_words(len as int, picks, n + 1) =~= (before.told
                    + shuffle_words(len as int, earlier, n as int)).push(
                    SourceTold::Random { bound: index + 1, answer },
                ));
            }
            let low = items[picked].copy();
            let high = items[index].copy();
            items.set(index, low);
            items.set(picked, high);
            n += 1;
        }
        assert(shuffles(before, self@, start, items@, picks));
    }
}

/// The contents of the shuffled items are the shuffled contents.
proof fn lemma_shuffled_views(items: Seq<IpPortItem>, picks: Seq<usize>, n: int)
    requires
        0 <= n <= pick_count(items.len() as int),
    ensures
        pair_views(shuffled(items, picks, n)) == shuffled(pair_views(items), picks, n),
    decreases n,
{
    if n > 0 {
        lemma_shuffled_views(items, picks, n - 1);
        lemma_shuffled_len(items, picks, n - 1);
        let before = shuffled(items, picks, n - 1);
        let index = items.len() - n;
        let picked = picks[n - 1] as int % (index + 1);
        assert(pair_views(
            before.update(index, before[picked]).update(picked, before[index]),
        ) =~= pair_views(before).update(index, pair_views(before)[picked]).update(
            picked,
            pair_views(before)[index],
        ));
    }
}

/// How many pairs the history is asked for.
fn needed(count: usize, so_far: usize) -> (need: i32)
    ensures
        need == need_of(count as int, so_far as int),
{
    if count < so_far {
        -1
    } else if count - so_far > i32::MAX as usize {
        i32::MAX
    } else {
        (count - so_far) as i32
    }
}

impl<H: SourceHost> NetSource<H> {
    /// The pairs of one host in the first pass.
    fn make_front(
        &mut self,
        now: u64,
        so_far: &Vec<IpPortItem>,
        host: &str,
        extra: &ExtraInfo,
        make: Make,
    ) -> (made: Option<Vec<IpPortItem>>)
        ensures
            final(self)@ == old(self)@.settled(final(self)@.lookup()),
            exists|a: MakeAnswers| #[trigger]
                old(self)@.makes_front(now, pair_views(so_far@), host@, extra@, make, a) == (Made {
                    look: final(self)@.lookup(),
                    pairs: made_view(made),
                }),
    {
        let ghost before = self@;
        let ghost have = pair_views(so_far@);
        let mut ips = self.ask_new_dns(host, make.is_longlink, extra);
        let ghost first = texts(ips@);
        let ghost mut second: Seq<Seq<char>> = seq![];
        let mut source = IpSourceType::NewDns;
        if ips.len() == 0 {
            ips = self.ask_dns(host);
            proof {
                second = texts(ips@);
            }
            source = IpSourceType::Dns;
        }
        let ghost asked = MakeAnswers { first, second, sorted: seq![], picks: seq![] };
        assert(self@.told =~= before.told + SourceView::front_words(
            host@,
            make.is_longlink,
            extra@,
            asked,
        ));
        if ips.len() == 0 {
            proof {
                assert(before.makes_front(now, have, host@, extra@, make, asked) == (Made {
                    look: self@.lookup(),
                    pairs: None,
                }));
            }
            return None;
        }
        let ports = self.list_ports(make);
        let items = make_pairs(&ips, &ports, source, host);
        let sorted = self.ask_sort(now, items, needed(make.count, so_far.len()));
        proof {
            let a = MakeAnswers { sorted: pair_views(sorted@), ..asked };
            assert(before.makes_front(now, have, host@, extra@, make, a) == (Made {
                look: self@.lookup(),
                pairs: Some(pair_views(sorted@)),
            }));
        }
        Some(sorted)
    }

    /// The backup ips of a host: those the app set, or what the fallback
    /// answers, which is kept.
    fn find_spare(&mut self, host: &str) -> (ips: Vec<String>)
        ensures
            exists|a: MakeAnswers|
                {
                    &&& #[trigger] old(self)@.spare_ips(host@, a) == texts(ips@)
                    &&& final(self)@ == old(self)@.settled(
                        (Lookup {
                            backup: old(self)@.spare_kept(host@, a),
                            told: old(self)@.told + old(self)@.spare_words(host@, a),
                        }),
                    )
                },
    {
        let ghost before = self@;
        let ips = self.backup_ips(host);
        if ips.len() > 0 {
            proof {
                let a = MakeAnswers { first: seq![], second: seq![], sorted: seq![], picks: seq![] };
                assert(before.told + before.spare_words(host@, a) =~= before.told);
                assert(before.spare_ips(host@, a) == texts(ips@));
            }
            return ips;
        }
        let ips = self.ask_dns(host);
        let ghost a = MakeAnswers {
            first: seq![],
            second: texts(ips@),
            sorted: seq![],
            picks: seq![],
        };
        proof {
            assert(self@.told =~= before.told + before.spare_words(host@, a));
            assert(before.spare_ips(host@, a) == texts(ips@));
        }
        if ips.len() > 0 {
            self.set_backup_ips(host, copy_texts(&ips));
        }
        ips
    }

    /// The pairs of one host in the backup pass.
    fn make_spare(&mut self, so_far: &Vec<IpPortItem>, host: &str, make: Make) -> (made: Option<
        Vec<IpPortItem>,
    >)
        ensures
            final(self)@ == old(self)@.settled(final(self)@.lookup()),
            exists|a: MakeAnswers| #[trigger]
                old(self)@.makes_spare(pair_views(so_far@), host@, make, a) == (Made {
                    look: final(self)@.lookup(),
                    pairs: made_view(made),
                }),
    {
        let ghost before = self@;
        let ghost have = pair_views(so_far@);
        let ips = self.find_spare(host);
        let ghost found = choose|a: MakeAnswers|
            {
                &&& #[trigger] before.spare_ips(host@, a) == texts(ips@)
                &&& self@ == before.settled(
                    (Lookup {
                        backup: before.spare_kept(host@, a),
                        told: before.told + before.spare_words(host@, a),
                    }),
                )
            };
        if ips.len() == 0 {
            proof {
                assert(before.makes_spare(have, host@, make, found) == (Made {
                    look: self@.lookup(),
                    pairs: None,
                }));
            }
            return None;
        }
        let ports = self.list_ports(make);
        let kept = if ports.len() == 0 {
            ips
        } else {
            keep_ips(&ips, so_far, make.count, ports.len())
        };
        let mut items = make_pairs(&kept, &ports, IpSourceType::Backup, host);
        assert(pair_views(items@) == before.spare_pairs(have, host@, make, found));
        let ghost start = items@;
        let ghost asked = self@;
        self.shuffle(&mut items);
        let ghost picks = choose|picks: Seq<usize>| #[trigger]
            shuffles(asked, self@, start, items@, picks);
        let room: usize = make.count.saturating_sub(so_far.len());
        let ghost all = items@;
        items.truncate(room);
        proof {
            let a = MakeAnswers { picks, ..found };
            let n = pick_count(start.len() as int);
            lemma_shuffled_len(start, picks, n);
            lemma_shuffled_views(start, picks, n);
            if all.len() <= room {
                assert(items@ =~= all);
            } else {
                assert(items@ =~= all.take(room as int));
                assert(pair_views(items@) =~= pair_views(all).take(room as int));
            }
            assert(before.spare_pairs(have, host@, make, a) == pair_views(start));
            assert(before.makes_spare(have, host@, make, a) == (Made {
                look: self@.lookup(),
                pairs: Some(pair_views(items@)),
            }));
        }
        Some(items)
    }

    /// The pairs of one host. Nothing is a host no dns knows, and a host whose
    /// dns answered but whose port list is empty gives an empty list.
    fn make_ip_ports_at(
        &mut self,
        now: u64,
        so_far: &Vec<IpPortItem>,
        host: &str,
        extra: &ExtraInfo,
        make: Make,
    ) -> (made: Option<Vec<IpPortItem>>)
        ensures
            final(self)@ == old(self)@.settled(final(self)@.lookup()),
            exists|a: MakeAnswers| #[trigger]
                old(self)@.makes(now, pair_views(so_far@), host@, extra@, make, a) == (Made {
                    look: final(self)@.lookup(),
                    pairs: made_view(made),
                }),
    {
        let ghost before = self@;
        let ghost have = pair_views(so_far@);
        proof {
            reveal(SourceView::makes);
        }
        if make.is_backup {
            let made = self.make_spare(so_far, host, make);
            proof {
                let a = choose|a: MakeAnswers| #[trigger]
                    before.makes_spare(have, host@, make, a) == (Made {
                        look: self@.lookup(),
                        pairs: made_view(made),
                    });
                assert(before.makes(now, have, host@, extra@, make, a) == (Made {
                    look: self@.lookup(),
                    pairs: made_view(made),
                }));
            }
            made
        } else {
            let made = self.make_front(now, so_far, host, extra, make);
            proof {
                let a = choose|a: MakeAnswers| #[trigger]
                    before.makes_front(now, have, host@, extra@, make, a) == (Made {
                        look: self@.lookup(),
                        pairs: made_view(made),
                    });
                assert(before.makes(now, have, host@, extra@, make, a) == (Made {
                    look: self@.lookup(),
                    pairs: made_view(made),
                }));
            }
            made
        }
    }
}

/// One walk over the hosts.
#[derive(Debug, Clone, Copy, PartialEq, Eq, Structural)]
pub enum Pass {
    /// In the foreground, over the dns.
    Front,
    /// In the foreground, over the backup ips.
    Spare,
    /// In the background, over the dns: the pairs are shared out.
    Shared,
    /// In the background, over the backup ips.
    Rest,
}

impl Pass {
    /// The pass is over the backup ips.
    pub open spec fn is_backup(self) -> bool {
        self == Pass::Spare || self == Pass::Rest
    }
}

/// A list of pairs that is being made.
pub struct Listing {
    pub look: Lookup,
    pub items: Seq<IpPortView>,
    /// How often a host was done with something in the list.
    pub answered: nat,
    /// How many pairs the list may hold.
    pub count: int,
}

/// The share of the host at `i` of `n`: one pair fewer than a list holds is
/// spread over the hosts, the first ones getting what is left over.
pub open spec fn share_of(n: int, i: int) -> int {
    let spread = NUM_MAKE_COUNT - 1;
    if i < spread % n {
        spread / n + 1
    } else {
        spread / n
    }
}

impl Listing {
    /// How many pairs the list may hold once the host at `i` of `n` is done;
    /// nothing when the host is not asked at all.
    ///
    /// In the foreground the count grows by one once exactly one host answered
    /// and filled the list.
    pub open spec fn asks(self, pass: Pass, n: int, i: int) -> Option<int> {
        match pass {
            Pass::Front | Pass::Spare => if self.answered == 1 && self.items.len()
                == NUM_MAKE_COUNT {
                Some(NUM_MAKE_COUNT + 1)
            } else {
                Some(self.count)
            },
            Pass::Shared => if self.count >= NUM_MAKE_COUNT - 1 {
                None
            } else {
                Some(self.count + share_of(n, i))
            },
            Pass::Rest => if self.count >= NUM_MAKE_COUNT {
                None
            } else {
                Some(NUM_MAKE_COUNT as int)
            },
        }
    }

    /// The list with what one host made. A host that added nothing still counts
    /// once anything is in the list.
    pub open spec fn with(self, pass: Pass, count: int, made: Made) -> Listing {
        let items = match made.pairs {
            Some(pairs) => self.items + pairs,
            None => self.items,
        };
        Listing {
            look: made.look,
            items,
            answered: if made.pairs is Some && items.len() > 0 {
                self.answered + 1
            } else {
                self.answered
            },
            count: if pass == Pass::Rest {
                self.count
            } else {
                count
            },
        }
    }
}

/// What a list is made for.
pub struct Wanted {
    pub now: u64,
    pub hosts: Seq<Seq<char>>,
    pub is_longlink: bool,
    pub extra: Seq<(String, String)>,
}

impl SourceView {
    /// The list after the first `k` hosts of a pass.
    pub open spec fn walked(
        self,
        wanted: Wanted,
        start: Listing,
        pass: Pass,
        answers: Seq<MakeAnswers>,
        k: int,
    ) -> Listing
        decreases k,
    {
        if k <= 0 {
            start
        } else {
            let list = self.walked(wanted, start, pass, answers, k - 1);
            match list.asks(pass, wanted.hosts.len() as int, k - 1) {
                None => list,
                Some(count) => list.with(
                    pass,
                    count,
                    self.settled(list.look).makes(
                        wanted.now,
                        list.items,
                        wanted.hosts[k - 1],
                        wanted.extra,
                        Make {
                            count: count as usize,
                            is_backup: pass.is_backup(),
                            is_longlink: wanted.is_longlink,
                        },
                        answers[k - 1],
                    ),
                ),
            }
        }
    }

    /// The list before anything is in it.
    pub open spec fn unmade(self) -> Listing {
        Listing {
            look: self.lookup(),
            items: seq![],
            answered: 0,
            count: if self.is_active {
                NUM_MAKE_COUNT as int
            } else {
                0
            },
        }
    }

    /// The list a walk over the dns and one over the backup ips make.
    pub open spec fn listed(
        self,
        wanted: Wanted,
        front: Seq<MakeAnswers>,
        spare: Seq<MakeAnswers>,
    ) -> Listing {
        let n = wanted.hosts.len() as int;
        if self.is_active {
            self.walked(
                wanted,
                self.walked(wanted, self.unmade(), Pass::Front, front, n),
                Pass::Spare,
                spare,
                n,
            )
        } else {
            self.walked(
                wanted,
                self.walked(wanted, self.unmade(), Pass::Shared, front, n),
                Pass::Rest,
                spare,
                n,
            )
        }
    }
}

/// The part of a [`Listing`] that is kept while the hosts are walked.
struct Progress {
    items: Vec<IpPortItem>,
    /// One, or more than one, or none: more is not told apart.
    answered: usize,
    count: usize,
}

impl Progress {
    /// What is kept stands for the list.
    spec fn stands_for(&self, list: Listing) -> bool {
        &&& pair_views(self.items@) == list.items
        &&& self.answered == if list.answered > 2 {
            2
        } else {
            list.answered
        }
        &&& self.count == list.count
    }

    /// How many pairs the list may hold once a host is done.
    fn asks(&self, pass: Pass, n: usize, i: usize) -> (count: Option<usize>)
        requires
            self.count <= 2 * NUM_MAKE_COUNT,
            i < n,
        ensures
            forall|list: Listing| #[trigger]
                self.stands_for(list) ==> match (count, list.asks(pass, n as int, i as int)) {
                    (Some(count), Some(asked)) => count == asked && asked <= 2 * NUM_MAKE_COUNT,
                    (None, None) => true,
                    _ => false,
                },
    {
        match pass {
            Pass::Front | Pass::Spare => if self.answered == 1 && self.items.len()
                == NUM_MAKE_COUNT {
                Some(NUM_MAKE_COUNT + 1)
            } else {
                Some(self.count)
            },
            Pass::Shared => if self.count >= NUM_MAKE_COUNT - 1 {
                None
            } else {
                let spread: usize = NUM_MAKE_COUNT - 1;
                let each: usize = spread / n;
                proof {
                    assert(0 <= spread / n <= spread) by (nonlinear_arith)
                        requires
                            spread == 4,
                            n > 0,
                    ;
                }
                let share: usize = if i < spread % n {
                    each + 1
                } else {
                    each
                };
                Some(self.count + share)
            },
            Pass::Rest => if self.count >= NUM_MAKE_COUNT {
                None
            } else {
                Some(NUM_MAKE_COUNT)
            },
        }
    }

    /// What one host made is added.
    fn add_made(&mut self, pass: Pass, count: usize, made: Option<Vec<IpPortItem>>)
        requires
            old(self).answered <= 2,
        ensures
            forall|list: Listing, look: Lookup|
                #![trigger old(self).stands_for(list), list.with(pass, count as int, Made {
                    look,
                    pairs: made_view(made),
                })]
                old(self).stands_for(list) ==> final(self).stands_for(
                    list.with(pass, count as int, Made { look, pairs: made_view(made) }),
                ),
    {
        if pass != Pass::Rest {
            self.count = count;
        }
        if let Some(pairs) = made {
            let mut pairs = pairs;
            let ghost before = self.items@;
            let ghost more = pairs@;
            self.items.append(&mut pairs);
            assert(pair_views(self.items@) =~= pair_views(before) + pair_views(more));
            if self.items.len() > 0 && self.answered < 2 {
                self.answered = self.answered + 1;
            }
        }
    }
}

/// Only the answers that were given matter.
proof fn lemma_walked_by(
    view: SourceView,
    wanted: Wanted,
    start: Listing,
    pass: Pass,
    left: Seq<MakeAnswers>,
    right: Seq<MakeAnswers>,
    k: int,
)
    requires
        0 <= k <= left.len(),
        k <= right.len(),
        forall|i: int| 0 <= i < k ==> left[i] == right[i],
    ensures
        view.walked(wanted, start, pass, left, k) == view.walked(wanted, start, pass, right, k),
    decreases k,
{
    if k > 0 {
        lemma_walked_by(view, wanted, start, pass, left, right, k - 1);
    }
}

impl SourceView {
    /// The list a walk over all the hosts makes.
    pub open spec fn walked_all(
        self,
        wanted: Wanted,
        start: Listing,
        pass: Pass,
        answers: Seq<MakeAnswers>,
    ) -> Listing {
        self.walked(wanted, start, pass, answers, wanted.hosts.len() as int)
    }
}

impl<H: SourceHost> NetSource<H> {
    /// One walk over the hosts.
    fn walk(
        &mut self,
        now: u64,
        host_list: &[String],
        is_longlink: bool,
        extra: &ExtraInfo,
        pass: Pass,
        progress: &mut Progress,
        Ghost(start): Ghost<Listing>,
    )
        requires
            old(progress).stands_for(start),
            old(progress).count <= 2 * NUM_MAKE_COUNT,
            start.look == old(self)@.lookup(),
        ensures
            final(self)@ == old(self)@.settled(final(self)@.lookup()),
            final(progress).count <= 2 * NUM_MAKE_COUNT,
            exists|answers: Seq<MakeAnswers>|
                {
                    let list = #[trigger] old(self)@.walked_all(
                        Wanted { now, hosts: texts(host_list@), is_longlink, extra: extra@ },
                        start,
                        pass,
                        answers,
                    );
                    &&& list.look == final(self)@.lookup()
                    &&& final(progress).stands_for(list)
                },
    {
        let ghost before = self@;
        let ghost wanted = Wanted { now, hosts: texts(host_list@), is_longlink, extra: extra@ };
        let ghost mut answers: Seq<MakeAnswers> = seq![];
        let n: usize = host_list.len();
        let mut i: usize = 0;
        let is_backup = pass == Pass::Spare || pass == Pass::Rest;
        while i < n
            invariant
                n == host_list@.len(),
                i <= n,
                answers.len() == i,
                is_backup == pass.is_backup(),
                wanted == (Wanted { now, hosts: texts(host_list@), is_longlink, extra: extra@ }),
                progress.count <= 2 * NUM_MAKE_COUNT,
                self@ == before.settled(self@.lookup()),
                before.walked(wanted, start, pass, answers, i as int).look == self@.lookup(),
                progress.stands_for(before.walked(wanted, start, pass, answers, i as int)),
            decreases n - i,
        {
            let ghost list = before.walked(wanted, start, pass, answers, i as int);
            let ghost earlier = answers;
            match progress.asks(pass, n, i) {
                None => {
                    proof {
                        answers = answers.push(arbitrary());
                        lemma_walked_by(before, wanted, start, pass, earlier, answers, i as int);
                    }
                },
                Some(count) => {
                    let make = Make { count, is_backup, is_longlink };
                    let ghost mid = self@;
                    let made = self.make_ip_ports_at(
                        now,
                        &progress.items,
                        host_list[i].as_str(),
                        extra,
                        make,
                    );
                    proof {
                        let a = choose|a: MakeAnswers| #[trigger]
                            mid.makes(
                                now,
                                pair_views(progress.items@),
                                host_list@[i as int]@,
                                extra@,
                                make,
                                a,
                            ) == (Made { look: self@.lookup(), pairs: made_view(made) });
                        answers = answers.push(a);
                        lemma_walked_by(before, wanted, start, pass, earlier, answers, i as int);
                        assert(mid == before.settled(list.look));
                        assert(before.walked(wanted, start, pass, answers, i + 1) == list.with(
                            pass,
                            count as int,
                            Made { look: self@.lookup(), pairs: made_view(made) },
                        ));
                    }
                    progress.add_made(pass, count, made);
                },
            }
            i += 1;
        }
        assert(before.walked_all(wanted, start, pass, answers).look == self@.lookup());
    }

    /// The pairs a host list is made of.
    fn get_ip_port_items_at(
        &mut self,
        now: u64,
        host_list: &[String],
        is_longlink: bool,
        extra: &ExtraInfo,
    ) -> (items: Vec<IpPortItem>)
        ensures
            final(self)@ == old(self)@.settled(final(self)@.lookup()),
            exists|front: Seq<MakeAnswers>, spare: Seq<MakeAnswers>|
                {
                    let list = #[trigger] old(self)@.listed(
                        Wanted { now, hosts: texts(host_list@), is_longlink, extra: extra@ },
                        front,
                        spare,
                    );
                    &&& list.look == final(self)@.lookup()
                    &&& list.items == pair_views(items@)
                },
    {
        let ghost before = self@;
        let ghost wanted = Wanted { now, hosts: texts(host_list@), is_longlink, extra: extra@ };
        let (first, second, count): (Pass, Pass, usize) = if self.is_active {
            (Pass::Front, Pass::Spare, NUM_MAKE_COUNT)
        } else {
            (Pass::Shared, Pass::Rest, 0)
        };
        let mut progress = Progress { items: Vec::new(), answered: 0, count };
        assert(pair_views(progress.items@) =~= seq![]);
        self.walk(
            now,
            host_list,
            is_longlink,
            extra,
            first,
            &mut progress,
            Ghost(before.unmade()),
        );
        let ghost mid = self@;
        let ghost front = choose|answers: Seq<MakeAnswers>|
            {
                let list = #[trigger] before.walked_all(
                    wanted,
                    before.unmade(),
                    first,
                    answers,
                );
                &&& list.look == mid.lookup()
                &&& progress.stands_for(list)
            };
        let ghost middle = before.walked_all(wanted, before.unmade(), first, front);
        self.walk(now, host_list, is_longlink, extra, second, &mut progress, Ghost(middle));
        proof {
            let spare = choose|answers: Seq<MakeAnswers>|
                {
                    let list = #[trigger] mid.walked_all(wanted, middle, second, answers);
                    &&& list.look == self@.lookup()
                    &&& progress.stands_for(list)
                };
            lemma_walked_settled(before, mid.lookup(), wanted, middle, second, spare, wanted.hosts.len() as int);
            assert(before.listed(wanted, front, spare) == mid.walked_all(
                wanted,
                middle,
                second,
                spare,
            ));
        }
        progress.items
    }
}

/// What a lookup changes is not what a later walk reads.
proof fn lemma_walked_settled(
    view: SourceView,
    look: Lookup,
    wanted: Wanted,
    start: Listing,
    pass: Pass,
    answers: Seq<MakeAnswers>,
    k: int,
)
    ensures
        view.settled(look).walked(wanted, start, pass, answers, k) == view.walked(
            wanted,
            start,
            pass,
            answers,
            k,
        ),
    decreases k,
{
    if k > 0 {
        lemma_walked_settled(view, look, wanted, start, pass, answers, k - 1);
        let list = view.walked(wanted, start, pass, answers, k - 1);
        assert(view.settled(look).settled(list.look) == view.settled(list.look));
    }
}

/// The pairs a link is given, and what the lookup changed.
pub struct Given {
    pub look: Lookup,
    pub items: Seq<IpPortView>,
}

impl SourceView {
    /// The hosts a long link is made on: its own, or those the app set.
    pub open spec fn hosts_for(self, host_list: Seq<Seq<char>>) -> Seq<Seq<char>> {
        if host_list.len() == 0 {
            self.longlink_hosts
        } else {
            host_list
        }
    }

    /// The pairs of a list of hosts; a list without one has none.
    pub open spec fn looked_up(
        self,
        wanted: Wanted,
        front: Seq<MakeAnswers>,
        spare: Seq<MakeAnswers>,
    ) -> Given {
        if wanted.hosts.len() == 0 {
            Given { look: self.lookup(), items: seq![] }
        } else {
            let list = self.listed(wanted, front, spare);
            Given { look: list.look, items: list.items }
        }
    }

    /// The pairs a long link is tried on, in order.
    pub open spec fn longlink_items(
        self,
        now: u64,
        link_type: i32,
        host_list: Seq<Seq<char>>,
        extra: Seq<(String, String)>,
        front: Seq<MakeAnswers>,
        spare: Seq<MakeAnswers>,
    ) -> Given {
        match self.longlink_debug(link_type, host_list) {
            Some(items) => Given { look: self.lookup(), items },
            None => self.looked_up(
                Wanted { now, hosts: self.hosts_for(host_list), is_longlink: true, extra },
                front,
                spare,
            ),
        }
    }

    /// The pairs a short link is tried on, in order.
    pub open spec fn shortlink_items(
        self,
        now: u64,
        host_list: Seq<Seq<char>>,
        cgi: Seq<char>,
        extra: Seq<(String, String)>,
        front: Seq<MakeAnswers>,
        spare: Seq<MakeAnswers>,
    ) -> Given {
        match self.shortlink_debug(host_list, cgi) {
            Some(item) => Given { look: self.lookup(), items: seq![item] },
            None => self.looked_up(
                Wanted { now, hosts: host_list, is_longlink: false, extra },
                front,
                spare,
            ),
        }
    }
}

impl<H: SourceHost> NetSource<H> {
    /// The pairs of a list of hosts.
    fn look_up(
        &mut self,
        now: u64,
        host_list: &[String],
        is_longlink: bool,
        extra: &ExtraInfo,
    ) -> (items: Vec<IpPortItem>)
        ensures
            final(self)@ == old(self)@.settled(final(self)@.lookup()),
            exists|front: Seq<MakeAnswers>, spare: Seq<MakeAnswers>| #[trigger]
                old(self)@.looked_up(
                    Wanted { now, hosts: texts(host_list@), is_longlink, extra: extra@ },
                    front,
                    spare,
                ) == (Given { look: final(self)@.lookup(), items: pair_views(items@) }),
    {
        let ghost before = self@;
        let ghost wanted = Wanted { now, hosts: texts(host_list@), is_longlink, extra: extra@ };
        if host_list.len() == 0 {
            let items: Vec<IpPortItem> = Vec::new();
            proof {
                assert(pair_views(items@) =~= seq![]);
                let none: Seq<MakeAnswers> = seq![];
                assert(before.looked_up(wanted, none, none) == (Given {
                    look: self@.lookup(),
                    items: pair_views(items@),
                }));
            }
            return items;
        }
        let items = self.get_ip_port_items_at(now, host_list, is_longlink, extra);
        proof {
            let (front, spare) = choose|front: Seq<MakeAnswers>, spare: Seq<MakeAnswers>|
                {
                    let list = #[trigger] before.listed(wanted, front, spare);
                    &&& list.look == self@.lookup()
                    &&& list.items == pair_views(items@)
                };
            assert(before.looked_up(wanted, front, spare) == (Given {
                look: self@.lookup(),
                items: pair_views(items@),
            }));
        }
        items
    }

    /// The pairs a long link is tried on, in order, at the reading the ban list
    /// is compared against. No pairs is a link no host was ever set for, or a
    /// link of which nothing resolved.
    pub fn get_longlink_items_at(
        &mut self,
        now: u64,
        config: &LonglinkConfig,
        extra: &ExtraInfo,
    ) -> (items: Vec<IpPortItem>)
        ensures
            final(self)@ == old(self)@.settled(final(self)@.lookup()),
            exists|front: Seq<MakeAnswers>, spare: Seq<MakeAnswers>| #[trigger]
                old(self)@.longlink_items(
                    now,
                    config.link_type,
                    texts(config.host_list@),
                    extra@,
                    front,
                    spare,
                ) == (Given { look: final(self)@.lookup(), items: pair_views(items@) }),
    {
        let ghost before = self@;
        let ghost list = texts(config.host_list@);
        if let Some(items) = self.longlink_debug_ip_port(config) {
            proof {
                let none: Seq<MakeAnswers> = seq![];
                assert(before.longlink_items(now, config.link_type, list, extra@, none, none) == (
                Given { look: self@.lookup(), items: pair_views(items@) }));
            }
            return items;
        }
        let hosts = if config.host_list.len() == 0 {
            copy_texts(&self.longlink_hosts)
        } else {
            copy_texts(&config.host_list)
        };
        let items = self.look_up(now, hosts.as_slice(), true, extra);
        proof {
            let wanted = Wanted { now, hosts: texts(hosts@), is_longlink: true, extra: extra@ };
            let (front, spare) = choose|front: Seq<MakeAnswers>, spare: Seq<MakeAnswers>|
                #[trigger]
                before.looked_up(wanted, front, spare) == (Given {
                    look: self@.lookup(),
                    items: pair_views(items@),
                });
            assert(before.longlink_items(now, config.link_type, list, extra@, front, spare) == (
            Given { look: self@.lookup(), items: pair_views(items@) }));
        }
        items
    }

    /// The pairs a short link is tried on, in order.
    pub fn get_shortlink_items_at(
        &mut self,
        now: u64,
        host_list: &[String],
        cgi: &str,
        extra: &ExtraInfo,
    ) -> (items: Vec<IpPortItem>)
        ensures
            final(self)@ == old(self)@.settled(final(self)@.lookup()),
            exists|front: Seq<MakeAnswers>, spare: Seq<MakeAnswers>| #[trigger]
                old(self)@.shortlink_items(
                    now,
                    texts(host_list@),
                    cgi@,
                    extra@,
                    front,
                    spare,
                ) == (Given { look: final(self)@.lookup(), items: pair_views(items@) }),
    {
        let ghost before = self@;
        let ghost list = texts(host_list@);
        if let Some(item) = self.shortlink_debug_ip_port(host_list, cgi) {
            let mut items: Vec<IpPortItem> = Vec::new();
            items.push(item);
            proof {
                let none: Seq<MakeAnswers> = seq![];
                assert(pair_views(items@) =~= seq![item@]);
                assert(before.shortlink_items(now, list, cgi@, extra@, none, none) == (Given {
                    look: self@.lookup(),
                    items: pair_views(items@),
                }));
            }
            return items;
        }
        let items = self.look_up(now, host_list, false, extra);
        proof {
            let wanted = Wanted { now, hosts: list, is_longlink: false, extra: extra@ };
            let (front, spare) = choose|front: Seq<MakeAnswers>, spare: Seq<MakeAnswers>|
                #[trigger]
                before.looked_up(wanted, front, spare) == (Given {
                    look: self@.lookup(),
                    items: pair_views(items@),
                });
            assert(before.shortlink_items(now, list, cgi@, extra@, front, spare) == (Given {
                look: self@.lookup(),
                items: pair_views(items@),
            }));
        }
        items
    }
}

/// A host of the long link with a debug ip never reaches dns: the pairs are
/// that ip on every port of the long link, and the host of the source hears
/// nothing.
pub proof fn law_a_debug_ip_never_reaches_dns(
    source: SourceView,
    now: u64,
    link_type: i32,
    host_list: Seq<Seq<char>>,
    extra: Seq<(String, String)>,
    front: Seq<MakeAnswers>,
    spare: Seq<MakeAnswers>,
    k: int,
)
    requires
        0 <= k < source.longlink_hosts.len(),
        source.host_debugip.contains_key(source.longlink_hosts[k]),
    ensures
        ({
            let given = source.longlink_items(now, link_type, host_list, extra, front, spare);
            &&& given.look == source.lookup()
            &&& given.items.len() == source.longlink_ports.len()
            &&& exists|at: int|
                0 <= at <= k && source.host_debugip.contains_key(source.longlink_hosts[at])
                    && given.items == on_ports(
                    source.host_debugip[source.longlink_hosts[at]],
                    source.longlink_ports,
                    IpSourceType::Debug,
                    #[trigger] source.longlink_hosts[at],
                )
        }),
{
    lemma_known_by(source.longlink_hosts, source.host_debugip, k);
    let at = first_known(source.longlink_hosts, source.host_debugip)->0;
    assert(source.host_debugip.contains_key(source.longlink_hosts[at]));
}

/// A host with an entry is found, or one before it is.
proof fn lemma_known_by<V>(hosts: Seq<Seq<char>>, map: Map<Seq<char>, V>, k: int)
    requires
        0 <= k < hosts.len(),
        map.contains_key(hosts[k]),
    ensures
        first_known(hosts, map) matches Some(at) && 0 <= at <= k && map.contains_key(hosts[at]),
    decreases hosts.len(),
{
    if k < hosts.len() - 1 {
        lemma_known_by(hosts.drop_last(), map, k);
    } else {
        lemma_known_range(hosts.drop_last(), map);
    }
}

/// What is found stands in the list and has an entry.
proof fn lemma_known_range<V>(hosts: Seq<Seq<char>>, map: Map<Seq<char>, V>)
    ensures
        first_known(hosts, map) matches Some(at) ==> 0 <= at < hosts.len() && map.contains_key(
            hosts[at],
        ),
    decreases hosts.len(),
{
    if hosts.len() > 0 {
        lemma_known_range(hosts.drop_last(), map);
    }
}

/// A cgi with a debug pair beats everything: that pair is the list, and the
/// host of the source hears nothing.
pub proof fn law_a_cgi_debug_pair_beats_everything(
    source: SourceView,
    now: u64,
    host_list: Seq<Seq<char>>,
    cgi: Seq<char>,
    extra: Seq<(String, String)>,
    front: Seq<MakeAnswers>,
    spare: Seq<MakeAnswers>,
)
    requires
        source.cgi_debug.contains_key(cgi),
    ensures
        source.shortlink_items(now, host_list, cgi, extra, front, spare) == (Given {
            look: source.lookup(),
            items: seq![
                tcp_pair(
                    source.cgi_debug[cgi].0,
                    source.cgi_debug[cgi].1,
                    IpSourceType::Debug,
                    first_text(host_list),
                ),
            ],
        }),
{
}

/// The backup pass keeps to the count: what a host adds there never makes the
/// list longer than it may be, and a list that is full stays as it is.
pub proof fn law_the_backup_pass_keeps_to_the_count(
    source: SourceView,
    now: u64,
    so_far: Seq<IpPortView>,
    host: Seq<char>,
    extra: Seq<(String, String)>,
    make: Make,
    a: MakeAnswers,
)
    requires
        make.is_backup,
    ensures
        source.makes(now, so_far, host, extra, make, a).pairs matches Some(pairs) ==> so_far.len()
            + pairs.len() <= make.count || pairs.len() == 0,
{
    reveal(SourceView::makes);
    let pairs = source.spare_pairs(so_far, host, make, a);
    lemma_shuffled_len(pairs, a.picks, pick_count(pairs.len() as int));
}

impl SourceView {
    /// The history keeps to what it is asked for: what it answers for the hosts of a
    /// pass is no more than the list had room for.
    pub open spec fn keeps_to_need(
        self,
        wanted: Wanted,
        start: Listing,
        pass: Pass,
        answers: Seq<MakeAnswers>,
    ) -> bool {
        forall|k: int|
            0 <= k < wanted.hosts.len() ==> self.walked(
                wanted,
                start,
                pass,
                answers,
                k,
            ).is_answered_to_need(pass, wanted.hosts.len() as int, k, #[trigger] answers[k])
    }

    /// The pass over the dns, in the foreground or not.
    pub open spec fn first_pass(self) -> Pass {
        if self.is_active {
            Pass::Front
        } else {
            Pass::Shared
        }
    }
}

impl Listing {
    /// What the history answers for the host at `i` of `n` is no more than it was
    /// asked for.
    pub open spec fn is_answered_to_need(
        self,
        pass: Pass,
        n: int,
        i: int,
        a: MakeAnswers,
    ) -> bool {
        self.asks(pass, n, i) matches Some(count) ==> {
            let need = need_of(count, self.items.len() as int);
            need >= 0 ==> a.sorted.len() <= need
        }
    }
}

/// The pairs shared out over the first `k` of `n` hosts.
spec fn shared_out(n: int, k: int) -> int
    decreases k,
{
    if k <= 0 {
        0
    } else {
        shared_out(n, k - 1) + share_of(n, k - 1)
    }
}

/// With more hosts than there is to share, the first ones get one each.
proof fn lemma_one_each(n: int, k: int)
    requires
        NUM_MAKE_COUNT <= n,
        0 <= k <= n,
    ensures
        shared_out(n, k) == if k < NUM_MAKE_COUNT - 1 {
            k
        } else {
            NUM_MAKE_COUNT - 1
        },
    decreases k,
{
    if k > 0 {
        lemma_one_each(n, k - 1);
        assert(4int / n == 0 && 4int % n == 4) by (nonlinear_arith)
            requires
                n >= 5,
        ;
    }
}

/// What is shared out over the hosts is no more than there is to share.
proof fn lemma_shared_out(n: int, k: int)
    requires
        1 <= n,
        0 <= k < n,
    ensures
        0 <= shared_out(n, k) <= shared_out(n, k + 1) <= NUM_MAKE_COUNT - 1,
{
    if NUM_MAKE_COUNT <= n {
        lemma_one_each(n, k);
        lemma_one_each(n, k + 1);
    } else {
        reveal_with_fuel(shared_out, 6);
        assert(share_of(1, 0) == 4);
        assert(share_of(2, 0) == 2 && share_of(2, 1) == 2);
        assert(share_of(3, 0) == 2 && share_of(3, 1) == 1 && share_of(3, 2) == 1);
        assert(share_of(4, 0) == 1 && share_of(4, 1) == 1 && share_of(4, 2) == 1 && share_of(4, 3)
            == 1);
        assert(n == 1 || n == 2 || n == 3 || n == 4);
        assert(k == 0 || k == 1 || k == 2 || k == 3);
    }
}

/// A pass over the dns keeps to the count.
proof fn lemma_dns_pass(
    source: SourceView,
    wanted: Wanted,
    answers: Seq<MakeAnswers>,
    k: int,
)
    requires
        wanted.hosts.len() > 0,
        0 <= k <= wanted.hosts.len(),
        source.keeps_to_need(wanted, source.unmade(), source.first_pass(), answers),
    ensures
        ({
            let list = source.walked(wanted, source.unmade(), source.first_pass(), answers, k);
            &&& list.items.len() <= list.count
            &&& source.is_active ==> NUM_MAKE_COUNT <= list.count <= NUM_MAKE_COUNT + 1
            &&& !source.is_active ==> list.count <= NUM_MAKE_COUNT - 1
            &&& !source.is_active && list.count < NUM_MAKE_COUNT - 1 ==> list.count == shared_out(
                wanted.hosts.len() as int,
                k,
            )
        }),
    decreases k,
{
    let n = wanted.hosts.len() as int;
    let pass = source.first_pass();
    if k > 0 {
        lemma_dns_pass(source, wanted, answers, k - 1);
        lemma_shared_out(n, k - 1);
        reveal(SourceView::makes);
        let list = source.walked(wanted, source.unmade(), pass, answers, k - 1);
        assert(list.is_answered_to_need(pass, n, k - 1, answers[k - 1]));
    } else {
        lemma_shared_out(n, 0);
    }
}

/// A pass over the backup ips keeps to the count.
proof fn lemma_backup_pass(
    source: SourceView,
    wanted: Wanted,
    start: Listing,
    pass: Pass,
    answers: Seq<MakeAnswers>,
    k: int,
)
    requires
        pass.is_backup(),
        0 <= k <= wanted.hosts.len(),
        start.items.len() <= start.count,
        pass == Pass::Spare ==> NUM_MAKE_COUNT <= start.count <= NUM_MAKE_COUNT + 1,
        pass == Pass::Rest ==> start.count <= NUM_MAKE_COUNT - 1,
    ensures
        ({
            let list = source.walked(wanted, start, pass, answers, k);
            &&& pass == Pass::Spare ==> list.items.len() <= list.count && NUM_MAKE_COUNT
                <= list.count <= NUM_MAKE_COUNT + 1
            &&& pass == Pass::Rest ==> list.items.len() <= NUM_MAKE_COUNT && list.count
                == start.count
        }),
    decreases k,
{
    if k > 0 {
        lemma_backup_pass(source, wanted, start, pass, answers, k - 1);
        let list = source.walked(wanted, start, pass, answers, k - 1);
        match list.asks(pass, wanted.hosts.len() as int, k - 1) {
            Some(count) => {
                law_the_backup_pass_keeps_to_the_count(
                    source.settled(list.look),
                    wanted.now,
                    list.items,
                    wanted.hosts[k - 1],
                    wanted.extra,
                    Make {
                        count: count as usize,
                        is_backup: true,
                        is_longlink: wanted.is_longlink,
                    },
                    answers[k - 1],
                );
            },
            None => {},
        }
    }
}

/// A list of pairs is never longer than [`NUM_MAKE_COUNT`], or by one in the
/// foreground, where the history keeps to what it is asked for.
pub proof fn law_a_list_is_bounded(
    source: SourceView,
    wanted: Wanted,
    front: Seq<MakeAnswers>,
    spare: Seq<MakeAnswers>,
)
    requires
        source.keeps_to_need(wanted, source.unmade(), source.first_pass(), front),
    ensures
        source.is_active ==> source.looked_up(wanted, front, spare).items.len() <= NUM_MAKE_COUNT
            + 1,
        !source.is_active ==> source.looked_up(wanted, front, spare).items.len() <= NUM_MAKE_COUNT,
{
    let n = wanted.hosts.len() as int;
    if n > 0 {
        lemma_dns_pass(source, wanted, front, n);
        let mid = source.walked(wanted, source.unmade(), source.first_pass(), front, n);
        let pass = if source.is_active {
            Pass::Spare
        } else {
            Pass::Rest
        };
        lemma_backup_pass(source, wanted, mid, pass, spare, n);
    }
}

/// What the fallback answered becomes the backup ips of the host, and the next
/// backup pass takes them without asking.
pub proof fn law_what_the_fallback_answered_is_kept(
    source: SourceView,
    now: u64,
    so_far: Seq<IpPortView>,
    host: Seq<char>,
    extra: Seq<(String, String)>,
    make: Make,
    a: MakeAnswers,
    later: MakeAnswers,
)
    requires
        make.is_backup,
        source.backup_of(host).len() == 0,
        a.second.len() > 0,
    ensures
        ({
            let after = source.settled(source.makes(now, so_far, host, extra, make, a).look);
            &&& after.backup_of(host) == a.second
            &&& after.spare_ips(host, later) == a.second
            &&& after.spare_words(host, later).len() == 0
        }),
{
    reveal(SourceView::makes);
}

} // verus!
