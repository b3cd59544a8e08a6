//! Whether a proxy is one a task can go through.
//!
//! The question is answered by going through it: [`ProxyTest::test`] connects
//! (to the proxy itself when it is an http one, and to the host the test is
//! about *through* it when it is not), writes one `GET`, and reads the status of
//! whatever comes back. [`Verdict`] is what the status said: 200, 497 and a
//! redirect make the proxy one that is available.
//!
//! The sockets, the dns and the parser of the answer are behind [`ProxyHost`].
use vstd::prelude::*;
use vstd::string::StringExecFns;
use crate::config::{LONGLINK_CONN_INTERVAL_MS, LONGLINK_CONN_TIMEOUT_MS};
use crate::task::{copy_texts, texts};
use crate::task_profile::{ProxyInfo, ProxyType, ProxyView};

verus! {

/// The port the host under test is reached on; a proxy is reached on its own.
pub const TEST_PORT: u16 = 80;

/// How much of the answer one read asks the socket for.
pub const BUFFER_SIZE: usize = 8 * 1024;

/// How long a read of the answer waits, in milliseconds.
pub const READ_TIMEOUT_MS: i32 = 5000;

/// The platform's word for a read that timed out.
pub const ETIMEDOUT: i32 = 110;

/// How many reads an answer is given.
pub const MAX_READS: u64 = u64::MAX;

/// What the test came back with.
#[derive(Debug, Clone, Copy, PartialEq, Eq, Structural)]
pub enum Verdict {
    /// No status at all: the proxy is not one, there is nothing to connect to,
    /// the connect failed, the `GET` did not go out, or what came back was not
    /// an answer.
    Failed,
    /// An answer came back, and this is its status, whether or not it is one
    /// that makes the proxy available.
    Status(i32),
}

impl Verdict {
    /// The proxy answered: 200, 497, or a redirect. 497 is what a server
    /// answers a request that is not https with. Neither 300 nor 400 is a
    /// redirect.
    pub fn is_available(&self) -> (available: bool)
        ensures
            available == makes_available(*self),
    {
        match *self {
            Verdict::Failed => false,
            Verdict::Status(status) => status == 200 || status == 497 || (status > 300 && status
                < 400),
        }
    }

    /// The status; a test that never got an answer has none.
    pub fn status(&self) -> (status: Option<i32>)
        ensures
            status == match *self {
                Verdict::Failed => None,
                Verdict::Status(status) => Some(status),
            },
    {
        match *self {
            Verdict::Failed => None,
            Verdict::Status(status) => Some(status),
        }
    }
}

/// Where the test connects to.
#[derive(Debug, Clone, PartialEq, Eq)]
pub struct TestAddress {
    pub ip: String,
    pub port: u16,
    /// The address is mapped onto what the local network carries.
    pub mapped: bool,
}

/// The contents of a [`TestAddress`].
pub struct AddressView {
    pub ip: Seq<char>,
    pub port: u16,
    pub mapped: bool,
}

impl View for TestAddress {
    type V = AddressView;

    open spec fn view(&self) -> AddressView {
        AddressView { ip: self.ip@, port: self.port, mapped: self.mapped }
    }
}

/// The contents of a list of addresses.
pub open spec fn address_views(list: Seq<TestAddress>) -> Seq<AddressView> {
    list.map_values(|address: TestAddress| address@)
}

/// What the parser made of the answer so far.
#[derive(Debug, Clone, Copy, PartialEq, Eq, Structural)]
pub struct Heard {
    /// The status, once the first line is whole.
    pub status: Option<i32>,
    /// The answer is whole, or it is not one.
    pub over: bool,
}

/// The host of a test: the sockets, the dns and the parser of the answer.
pub trait ProxyHost: Sized {
    /// Everything the host was told and asked so far, in order. Each host says
    /// what that is of it.
    open spec fn heard(&self) -> Seq<ProxyTold> {
        Seq::empty()
    }

    /// The ips of a host.
    fn dns(&mut self, host: &str) -> (answer: Vec<String>)
        ensures
            final(self).heard() == old(self).heard().push(
                ProxyTold::Dns { host: host@, answer: texts(answer@) },
            ),
    ;

    /// How long a connect may take over ipv4 and over ipv6, in milliseconds.
    fn set_ip_connection_timeout(&mut self, v4_timeout_ms: u32, v6_timeout_ms: u32)
        ensures
            final(self).heard() == old(self).heard().push(
                ProxyTold::Timeout { v4: v4_timeout_ms, v6: v6_timeout_ms },
            ),
    ;

    /// A socket on one of the addresses, through the proxy; nothing is a
    /// connect that failed.
    fn connect(&mut self, addresses: &Vec<TestAddress>, proxy: &ProxyInfo) -> (answer: Option<i64>)
        ensures
            final(self).heard() == old(self).heard().push(
                ProxyTold::Connect { addresses: address_views(addresses@), proxy: proxy@, answer },
            ),
    ;

    /// What is written into the `Proxy-Authorization` field, when there is an
    /// account to log into the proxy with.
    fn authorization(&mut self, proxy: &ProxyInfo) -> (answer: Option<String>)
        ensures
            final(self).heard() == old(self).heard().push(
                ProxyTold::Authorization { proxy: proxy@, answer: text_view(answer) },
            ),
    ;

    /// The request goes out, whole and once.
    fn send(&mut self, socket: i64, request: &str) -> (answer: Result<usize, i32>)
        ensures
            final(self).heard() == old(self).heard().push(
                ProxyTold::Send { socket, request: request@, answer },
            ),
    ;

    /// The app broke the test off.
    fn is_broken(&mut self) -> (answer: bool)
        ensures
            final(self).heard() == old(self).heard().push(ProxyTold::Broken { answer }),
    ;

    /// A new answer is parsed from here on.
    fn new_answer(&mut self)
        ensures
            final(self).heard() == old(self).heard().push(ProxyTold::NewAnswer),
    ;

    /// The next read of the answer: what came, which is nothing at all when the
    /// peer hung up, or the platform's word for why not; `None` is a host that
    /// reads no more.
    fn recv(&mut self, socket: i64) -> (answer: Option<Result<Vec<u8>, i32>>)
        ensures
            final(self).heard() == old(self).heard().push(
                ProxyTold::Recv { socket, answer: read_view(answer) },
            ),
    ;

    /// More of the answer.
    fn feed(&mut self, bytes: &Vec<u8>) -> (answer: Heard)
        ensures
            final(self).heard() == old(self).heard().push(
                ProxyTold::Feed { bytes: bytes@, answer },
            ),
    ;

    /// The socket is not needed any more.
    fn close(&mut self, socket: i64)
        ensures
            final(self).heard() == old(self).heard().push(ProxyTold::Close { socket }),
    ;
}

/// One thing a test told its host, or one thing it asked and the answer.
#[allow(inconsistent_fields)]
pub enum ProxyTold {
    Dns { host: Seq<char>, answer: Seq<Seq<char>> },
    Timeout { v4: u32, v6: u32 },
    Connect { addresses: Seq<AddressView>, proxy: ProxyView, answer: Option<i64> },
    Authorization { proxy: ProxyView, answer: Option<Seq<char>> },
    Send { socket: i64, request: Seq<char>, answer: Result<usize, i32> },
    Broken { answer: bool },
    NewAnswer,
    Recv { socket: i64, answer: Option<Result<Seq<u8>, i32>> },
    Feed { bytes: Seq<u8>, answer: Heard },
    Close { socket: i64 },
}

/// One question about one proxy, answered by going through it.
pub struct ProxyTest<H> {
    pub host: H,
}

/// What one read of the answer gave.
pub open spec fn read_view(read: Option<Result<Vec<u8>, i32>>) -> Option<Result<Seq<u8>, i32>> {
    match read {
        Some(Ok(bytes)) => Some(Ok(bytes@)),
        Some(Err(code)) => Some(Err(code)),
        None => None,
    }
}

/// What the host answers around one read.
pub struct ReadAnswer {
    pub read: Option<Result<Seq<u8>, i32>>,
    pub broken: bool,
    pub heard: Heard,
}

/// An answer that is being read.
pub struct Reading {
    pub status: Option<i32>,
    pub over: bool,
    pub words: Seq<ProxyTold>,
}

impl Reading {
    /// One read more: an app that broke the test off ends the reading before
    /// anything the read said, a read that timed out is read again, and one
    /// that failed or brought nothing ends it.
    pub open spec fn with(self, socket: i64, a: ReadAnswer) -> Reading {
        let read = self.words.push(ProxyTold::Recv { socket, answer: a.read });
        let asked = read.push(ProxyTold::Broken { answer: a.broken });
        match a.read {
            None => Reading { over: true, words: read, ..self },
            Some(came) => if a.broken {
                Reading { over: true, words: asked, ..self }
            } else {
                match came {
                    Err(code) => Reading { over: code != ETIMEDOUT, words: asked, ..self },
                    Ok(bytes) => if bytes.len() == 0 {
                        Reading { over: true, words: asked, ..self }
                    } else {
                        Reading {
                            status: if a.heard.status is Some {
                                a.heard.status
                            } else {
                                self.status
                            },
                            over: a.heard.over,
                            words: asked.push(ProxyTold::Feed { bytes, answer: a.heard }),
                        }
                    },
                }
            },
        }
    }
}

/// The answer after the reads that were answered so.
pub open spec fn read_through(socket: i64, answers: Seq<ReadAnswer>) -> Reading
    decreases answers.len(),
{
    if answers.len() == 0 {
        Reading { status: None, over: false, words: seq![ProxyTold::NewAnswer] }
    } else {
        read_through(socket, answers.drop_last()).with(socket, answers.last())
    }
}

/// The reads of a whole answer: none but the last ends it, and the last one does
/// unless there are no more reads to be had.
pub open spec fn is_whole(socket: i64, answers: Seq<ReadAnswer>) -> bool {
    &&& answers.len() <= MAX_READS
    &&& forall|k: int|
        0 <= k < answers.len() ==> !read_through(socket, #[trigger] answers.take(k)).over
    &&& answers.len() == MAX_READS || read_through(socket, answers).over
}

/// What a status says.
pub open spec fn verdict_of(status: Option<i32>) -> Verdict {
    match status {
        Some(status) => Verdict::Status(status),
        None => Verdict::Failed,
    }
}

/// The `GET` of the host under test: an http proxy is asked for the whole url,
/// and anything else for `/`.
pub open spec fn request_text(
    kind: ProxyType,
    host: Seq<char>,
    authorization: Option<Seq<char>>,
) -> Seq<char> {
    let start = "GET "@;
    let asked = if kind == ProxyType::Http {
        start + "http://"@ + host + "/"@
    } else {
        start + "/"@
    };
    let head = asked + " HTTP/1.1\r\n"@
        + "Accept: */*\r\nUser-Agent: MicroMessenger Client\r\nCache-Control: no-cache\r\nConnection: close\r\nHost: "@
        + host + "\r\n"@;
    match authorization {
        Some(account) => head + "Proxy-Authorization: "@ + account + "\r\n"@ + "\r\n"@,
        None => head + "\r\n"@,
    }
}

/// What the host answers in the course of a test.
pub struct TestAnswers {
    pub proxy_dns: Seq<Seq<char>>,
    pub host_dns: Seq<Seq<char>>,
    pub socket: Option<i64>,
    pub account: Option<Seq<char>>,
    pub sent: Result<usize, i32>,
    pub broken: bool,
    pub reads: Seq<ReadAnswer>,
}

/// What a test is about.
pub struct TestAsked {
    pub proxy: ProxyView,
    pub host: Seq<char>,
    pub hardcode_ips: Seq<Seq<char>>,
}

impl TestAsked {
    /// There is a proxy, or none on purpose, and something to reach through it.
    pub open spec fn is_question(self) -> bool {
        self.proxy.valid && (self.host.len() > 0 || self.hardcode_ips.len() > 0)
    }

    /// The proxy is named by its host, which dns is asked for.
    pub open spec fn is_named(self) -> bool {
        self.proxy.kind != ProxyType::Absent && self.proxy.ip.len() == 0
    }

    /// Dns could not name the proxy.
    pub open spec fn is_lost(self, a: TestAnswers) -> bool {
        self.is_named() && a.proxy_dns.len() == 0
    }

    /// Where the proxy is.
    pub open spec fn proxy_ip(self, a: TestAnswers) -> Seq<char> {
        if self.proxy.ip.len() > 0 {
            self.proxy.ip
        } else {
            a.proxy_dns[0]
        }
    }

    /// The ips the host under test is reached at.
    pub open spec fn test_ips(self, a: TestAnswers) -> Seq<Seq<char>> {
        if a.host_dns.len() > 0 {
            a.host_dns
        } else {
            self.hardcode_ips
        }
    }

    /// There is nothing to connect to.
    pub open spec fn is_nowhere(self, a: TestAnswers) -> bool {
        self.is_lost(a) || (self.proxy.kind != ProxyType::Http && self.test_ips(a).len() == 0)
    }

    /// Where the test connects to: an http proxy itself, and otherwise the host
    /// under test, which is mapped onto the local network only when no proxy is
    /// in between.
    pub open spec fn addresses(self, a: TestAnswers) -> Seq<AddressView> {
        if self.proxy.kind == ProxyType::Http {
            seq![AddressView { ip: self.proxy_ip(a), port: self.proxy.port, mapped: true }]
        } else {
            self.test_ips(a).map_values(
                |ip: Seq<char>|
                    AddressView {
                        ip,
                        port: TEST_PORT,
                        mapped: self.proxy.kind == ProxyType::Absent,
                    },
            )
        }
    }

    /// The proxy the connect is made through: the one dns named.
    pub open spec fn through(self, a: TestAnswers) -> ProxyView {
        if self.proxy.kind == ProxyType::Absent {
            ProxyView::none()
        } else {
            ProxyView { ip: self.proxy_ip(a), ..self.proxy }
        }
    }

    /// What dns is asked about the proxy.
    pub open spec fn proxy_words(self, a: TestAnswers) -> Seq<ProxyTold> {
        if self.is_named() {
            seq![ProxyTold::Dns { host: self.proxy.host, answer: a.proxy_dns }]
        } else {
            seq![]
        }
    }

    /// What dns is asked about the host under test.
    pub open spec fn host_words(self, a: TestAnswers) -> Seq<ProxyTold> {
        if self.is_lost(a) || self.proxy.kind == ProxyType::Http {
            seq![]
        } else {
            seq![ProxyTold::Dns { host: self.host, answer: a.host_dns }]
        }
    }

    /// What a connect says.
    pub open spec fn connect_words(self, a: TestAnswers) -> Seq<ProxyTold> {
        let asked = self.proxy_words(a) + self.host_words(a);
        if self.is_nowhere(a) {
            asked
        } else {
            asked.push(
                ProxyTold::Timeout { v4: LONGLINK_CONN_TIMEOUT_MS, v6: LONGLINK_CONN_INTERVAL_MS },
            ).push(
                ProxyTold::Connect {
                    addresses: self.addresses(a),
                    proxy: self.through(a),
                    answer: a.socket,
                },
            )
        }
    }

    /// What the request says; a `GET` that did not go out is not asked about
    /// any further.
    pub open spec fn request_words(self, a: TestAnswers, socket: i64) -> Seq<ProxyTold> {
        let sent = seq![ProxyTold::Authorization { proxy: self.proxy, answer: a.account }].push(
            ProxyTold::Send {
                socket,
                request: request_text(self.proxy.kind, self.host, a.account),
                answer: a.sent,
            },
        );
        if a.sent is Ok {
            sent.push(ProxyTold::Broken { answer: a.broken })
        } else {
            sent
        }
    }

    /// The request went out and nobody broke the test off.
    pub open spec fn is_read(self, a: TestAnswers) -> bool {
        a.sent is Ok && !a.broken
    }

    /// What the rest of the test says, and the verdict; the socket is closed
    /// whatever became of it.
    pub open spec fn asked_on(self, a: TestAnswers, socket: i64) -> (Seq<ProxyTold>, Verdict) {
        let closed = ProxyTold::Close { socket };
        if self.is_read(a) {
            (
                (self.request_words(a, socket) + read_through(socket, a.reads).words).push(closed),
                verdict_of(read_through(socket, a.reads).status),
            )
        } else {
            (self.request_words(a, socket).push(closed), Verdict::Failed)
        }
    }

    /// The socket the test is made on, if it gets one.
    pub open spec fn reaches(self, a: TestAnswers) -> Option<i64> {
        if self.is_question() && !self.is_nowhere(a) {
            a.socket
        } else {
            None
        }
    }

    /// What a test says to its host, and the verdict.
    pub open spec fn run(self, a: TestAnswers) -> (Seq<ProxyTold>, Verdict) {
        if !self.is_question() {
            (seq![], Verdict::Failed)
        } else if self.is_nowhere(a) {
            (self.connect_words(a), Verdict::Failed)
        } else {
            match a.socket {
                None => (self.connect_words(a), Verdict::Failed),
                Some(socket) => (
                    self.connect_words(a) + self.asked_on(a, socket).0,
                    self.asked_on(a, socket).1,
                ),
            }
        }
    }
}

/// A text that may not be there.
pub open spec fn text_view(text: Option<String>) -> Option<Seq<char>> {
    match text {
        Some(text) => Some(text@),
        None => None,
    }
}

/// The `GET` of the host under test.
pub fn request(kind: ProxyType, host: &str, authorization: &Option<String>) -> (text: String)
    ensures
        text@ == request_text(kind, host@, text_view(*authorization)),
{
    let mut text = "GET ".to_owned();
    if kind == ProxyType::Http {
        text.append("http://");
        text.append(host);
    }
    text.append("/");
    text.append(" HTTP/1.1\r\n");
    text.append(
        "Accept: */*\r\nUser-Agent: MicroMessenger Client\r\nCache-Control: no-cache\r\nConnection: close\r\nHost: ",
    );
    text.append(host);
    text.append("\r\n");
    if let Some(account) = authorization {
        text.append("Proxy-Authorization: ");
        text.append(account.as_str());
        text.append("\r\n");
    }
    text.append("\r\n");
    text
}

/// The answers before anything was asked.
spec fn unasked() -> TestAnswers {
    TestAnswers {
        proxy_dns: seq![],
        host_dns: seq![],
        socket: None,
        account: None,
        sent: Err(0),
        broken: false,
        reads: seq![],
    }
}

/// The same proxy at another ip.
fn at_ip(proxy: &ProxyInfo, ip: &str) -> (moved: ProxyInfo)
    ensures
        moved@ == (ProxyView { ip: ip@, ..proxy@ }),
{
    let mut moved = proxy.copy();
    moved.ip = ip.to_owned();
    moved
}

/// The addresses of a list of ips.
fn test_addresses(ips: &Vec<String>, mapped: bool) -> (list: Vec<TestAddress>)
    ensures
        address_views(list@) == texts(ips@).map_values(
            |ip: Seq<char>| AddressView { ip, port: TEST_PORT, mapped },
        ),
{
    let ghost all = texts(ips@).map_values(
        |ip: Seq<char>| AddressView { ip, port: TEST_PORT, mapped },
    );
    let mut list: Vec<TestAddress> = Vec::new();
    let mut i: usize = 0;
    assert(address_views(list@) =~= all.take(0));
    while i < ips.len()
        invariant
            i <= ips@.len(),
            all == texts(ips@).map_values(
                |ip: Seq<char>| AddressView { ip, port: TEST_PORT, mapped },
            ),
            address_views(list@) == all.take(i as int),
        decreases ips@.len() - i,
    {
        let ghost before = list@;
        list.push(TestAddress { ip: ips[i].clone(), port: TEST_PORT, mapped });
        assert(address_views(list@) =~= address_views(before).push(all[i as int]));
        assert(all.take(i as int).push(all[i as int]) =~= all.take(i + 1));
        i += 1;
    }
    assert(all.take(i as int) =~= all);
    list
}

impl<H: ProxyHost> ProxyTest<H> {
    /// A test on the sockets of a host.
    pub fn new(host: H) -> (test: Self)
        ensures
            test.host == host,
    {
        ProxyTest { host }
    }

    /// The ips of a host.
    fn ask_dns(&mut self, host: &str) -> (ips: Vec<String>)
        ensures
            final(self).host.heard() == old(self).host.heard().push(
                ProxyTold::Dns { host: host@, answer: texts(ips@) },
            ),
    {
        self.host.dns(host)
    }

    /// A socket on one of the addresses, with the timeouts of the long link.
    fn open(&mut self, addresses: &Vec<TestAddress>, proxy: &ProxyInfo) -> (socket: Option<i64>)
        ensures
            final(self).host.heard() == old(self).host.heard().push(
                ProxyTold::Timeout { v4: LONGLINK_CONN_TIMEOUT_MS, v6: LONGLINK_CONN_INTERVAL_MS },
            ).push(
                ProxyTold::Connect {
                    addresses: address_views(addresses@),
                    proxy: proxy@,
                    answer: socket,
                },
            ),
    {
        self.host.set_ip_connection_timeout(LONGLINK_CONN_TIMEOUT_MS, LONGLINK_CONN_INTERVAL_MS);
        self.host.connect(addresses, proxy)
    }

    /// Whether the app broke the test off.
    fn ask_broken(&mut self) -> (broken: bool)
        ensures
            final(self).host.heard() == old(self).host.heard().push(ProxyTold::Broken { answer: broken }),
    {
        self.host.is_broken()
    }

    /// The socket the test is made on: nothing is a proxy dns could not name, a
    /// host that has neither a dns answer nor a hardcode ip, or a connect that
    /// failed.
    fn connect(&mut self, proxy: &ProxyInfo, host: &str, hardcode_ips: &Vec<String>) -> (socket:
        Option<i64>)
        ensures
            exists|a: TestAnswers| #[trigger]
                asked_of(*proxy, host@, hardcode_ips@).connected(
                    old(self).host.heard(),
                    final(self).host.heard(),
                    socket,
                    a,
                ),
    {
        let ghost before = self.host.heard();
        let ghost asked = asked_of(*proxy, host@, hardcode_ips@);
        let ghost mut a = unasked();
        let mut proxy_ip = proxy.ip.clone();
        if proxy.kind != ProxyType::Absent && proxy.ip.as_str().is_empty() {
            let named = self.ask_dns(proxy.host.as_str());
            proof {
                a = TestAnswers { proxy_dns: texts(named@), ..a };
            }
            if named.len() == 0 {
                assert(self.host.heard() =~= before + asked.connect_words(a));
                assert(asked.connected(before, self.host.heard(), None, a));
                return None;
            }
            proxy_ip = named[0].clone();
        }
        assert(self.host.heard() =~= before + asked.proxy_words(a));
        let mut addresses: Vec<TestAddress> = Vec::new();
        if proxy.kind == ProxyType::Http {
            addresses.push(
                TestAddress { ip: proxy_ip.clone(), port: proxy.port, mapped: true },
            );
            assert(address_views(addresses@) =~= asked.addresses(a));
        } else {
            let mut ips = self.ask_dns(host);
            proof {
                a = TestAnswers { host_dns: texts(ips@), ..a };
            }
            if ips.len() == 0 {
                ips = copy_texts(hardcode_ips);
            }
            assert(texts(ips@) == asked.test_ips(a));
            if ips.len() == 0 {
                assert(self.host.heard() =~= before + asked.connect_words(a));
                assert(asked.connected(before, self.host.heard(), None, a));
                return None;
            }
            addresses = test_addresses(&ips, proxy.kind == ProxyType::Absent);
            assert(address_views(addresses@) =~= asked.addresses(a));
        }
        assert(self.host.heard() =~= before + (asked.proxy_words(a) + asked.host_words(a)));
        let through = if proxy.kind == ProxyType::Absent {
            ProxyInfo::none()
        } else {
            at_ip(proxy, proxy_ip.as_str())
        };
        let socket = self.open(&addresses, &through);
        proof {
            let b = TestAnswers { socket, ..a };
            assert(asked.addresses(b) == asked.addresses(a));
            assert(through@ == asked.through(b));
            assert(self.host.heard() =~= before + asked.connect_words(b));
            assert(asked.connected(before, self.host.heard(), socket, b));
        }
        socket
    }

    /// The request goes out, and whether there is an answer to read.
    fn write(&mut self, socket: i64, proxy: &ProxyInfo, host: &str) -> (go_on: bool)
        ensures
            exists|a: TestAnswers| #[trigger]
                asked_of(*proxy, host@, seq![]).wrote(
                    old(self).host.heard(),
                    final(self).host.heard(),
                    socket,
                    go_on,
                    a,
                ),
    {
        let ghost before = self.host.heard();
        let ghost asked = asked_of(*proxy, host@, seq![]);
        let account = self.host.authorization(proxy);
        let text = request(proxy.kind, host, &account);
        let sent = self.host.send(socket, text.as_str());
        let ghost a = TestAnswers { account: text_view(account), sent, ..unasked() };
        if sent.is_err() {
            assert(self.host.heard() =~= before + asked.request_words(a, socket));
            assert(asked.wrote(before, self.host.heard(), socket, false, a));
            return false;
        }
        let broken = self.ask_broken();
        proof {
            let b = TestAnswers { broken, ..a };
            assert(self.host.heard() =~= before + asked.request_words(b, socket));
            assert(asked.wrote(before, self.host.heard(), socket, !broken, b));
        }
        !broken
    }

    /// One read of the answer; what comes back is the status so far and whether
    /// the reading is over.
    fn take_read(&mut self, socket: i64, status: Option<i32>) -> (next: (
        Option<i32>,
        bool,
        Ghost<ReadAnswer>,
    ))
        ensures
            (Reading { status, over: false, words: old(self).host.heard() }).with(socket, next.2@)
                == (Reading { status: next.0, over: next.1, words: final(self).host.heard() }),
    {
        let ghost silence = Heard { status: None, over: false };
        let read = self.host.recv(socket);
        let ghost answer = read_view(read);
        let came = match read {
            None => {
                return (
                    status,
                    true,
                    Ghost(ReadAnswer { read: answer, broken: false, heard: silence }),
                );
            },
            Some(came) => came,
        };
        let broken = self.ask_broken();
        let ghost a = ReadAnswer { read: answer, broken, heard: silence };
        if broken {
            return (status, true, Ghost(a));
        }
        match came {
            Err(code) => (status, code != ETIMEDOUT, Ghost(a)),
            Ok(bytes) => {
                if bytes.len() == 0 {
                    return (status, true, Ghost(a));
                }
                let heard = self.host.feed(&bytes);
                let next: Option<i32> = match heard.status {
                    Some(status) => Some(status),
                    None => status,
                };
                (next, heard.over, Ghost(ReadAnswer { heard, ..a }))
            },
        }
    }

    /// The reads until the answer is whole, or until the socket says it will
    /// not be. A first line is enough to say a status.
    fn read(&mut self, socket: i64) -> (r: (Verdict, Ghost<Seq<ReadAnswer>>))
        ensures
            is_whole(socket, r.1@),
            final(self).host.heard() == old(self).host.heard() + read_through(
                socket,
                r.1@,
            ).words,
            r.0 == verdict_of(read_through(socket, r.1@).status),
    {
        let ghost before = self.host.heard();
        let ghost mut answers: Seq<ReadAnswer> = seq![];
        self.host.new_answer();
        assert(self.host.heard() =~= before + read_through(socket, answers).words);
        let mut status: Option<i32> = None;
        let mut over = false;
        let mut left: u64 = MAX_READS;
        while left > 0 && !over
            invariant
                answers.len() == MAX_READS - left,
                self.host.heard() == before + read_through(socket, answers).words,
                status == read_through(socket, answers).status,
                over == read_through(socket, answers).over,
                forall|k: int|
                    0 <= k < answers.len() ==> !read_through(
                        socket,
                        #[trigger] answers.take(k),
                    ).over,
            decreases left,
        {
            let ghost earlier = answers;
            let ghost reading = read_through(socket, answers);
            let (next, ended, Ghost(a)) = self.take_read(socket, status);
            proof {
                answers = answers.push(a);
                assert(answers.drop_last() =~= earlier);
                lemma_with_words(reading, before, socket, a);
                assert forall|k: int| 0 <= k < answers.len() implies !read_through(
                    socket,
                    #[trigger] answers.take(k),
                ).over by {
                    if k < earlier.len() {
                        assert(answers.take(k) =~= earlier.take(k));
                    } else {
                        assert(answers.take(k) =~= earlier);
                    }
                }
            }
            status = next;
            over = ended;
            left = left - 1;
        }
        let verdict = match status {
            Some(status) => Verdict::Status(status),
            None => Verdict::Failed,
        };
        (verdict, Ghost(answers))
    }

    /// The socket is not needed any more.
    fn close(&mut self, socket: i64)
        ensures
            final(self).host.heard() == old(self).host.heard().push(ProxyTold::Close { socket }),
    {
        self.host.close(socket);
    }

    /// The whole run: the connect, one `GET`, and the reads until the answer is
    /// whole, or until the socket says it will not be. The socket is closed
    /// whatever became of it.
    pub fn test(
        &mut self,
        proxy: &ProxyInfo,
        host: &str,
        hardcode_ips: &Vec<String>,
    ) -> (verdict: Verdict)
        ensures
            exists|a: TestAnswers| #[trigger]
                asked_of(*proxy, host@, hardcode_ips@).ran(
                    old(self).host.heard(),
                    final(self).host.heard(),
                    verdict,
                    a,
                ),
    {
        let ghost before = self.host.heard();
        let ghost asked = asked_of(*proxy, host@, hardcode_ips@);
        if !proxy.valid || (host.is_empty() && hardcode_ips.len() == 0) {
            assert(before + asked.run(unasked()).0 =~= before);
            assert(asked.ran(before, self.host.heard(), Verdict::Failed, unasked()));
            return Verdict::Failed;
        }
        let connected = self.connect(proxy, host, hardcode_ips);
        let ghost first = asked_of(*proxy, host@, hardcode_ips@);
        let ghost told = self.host.heard();
        let ghost a = choose|a: TestAnswers| #[trigger]
            first.connected(before, told, connected, a);
        assert(asked.connect_words(a) == first.connect_words(a)) by {
            lemma_connect_words(asked, first, a, a);
        }
        match connected {
            None => {
                assert(asked.ran(before, self.host.heard(), Verdict::Failed, a));
                Verdict::Failed
            },
            Some(socket) => {
                let go_on = self.write(socket, proxy, host);
                let ghost second = asked_of(*proxy, host@, seq![]);
                let ghost written = self.host.heard();
                let ghost b = choose|b: TestAnswers| #[trigger]
                    second.wrote(told, written, socket, go_on, b);
                let ghost c = TestAnswers { account: b.account, sent: b.sent, broken: b.broken, ..a
                };
                if !go_on {
                    self.close(socket);
                    proof {
                        lemma_connect_words(asked, first, c, a);
                        assert(self.host.heard() =~= before + asked.run(c).0);
                        assert(asked.ran(before, self.host.heard(), Verdict::Failed, c));
                    }
                    return Verdict::Failed;
                }
                let (verdict, Ghost(answers)) = self.read(socket);
                self.close(socket);
                proof {
                    let d = TestAnswers { reads: answers, ..c };
                    lemma_connect_words(asked, first, d, a);
                    assert(asked.request_words(d, socket) == second.request_words(b, socket));
                    assert(self.host.heard() =~= before + asked.run(d).0);
                    assert(asked.ran(before, self.host.heard(), verdict, d));
                }
                verdict
            },
        }
    }

    /// Whether a task can go through this proxy.
    pub fn is_available(
        &mut self,
        proxy: &ProxyInfo,
        host: &str,
        hardcode_ips: &Vec<String>,
    ) -> (available: bool)
        ensures
            exists|a: TestAnswers, verdict: Verdict|
                #[trigger] asked_of(*proxy, host@, hardcode_ips@).ran(
                    old(self).host.heard(),
                    final(self).host.heard(),
                    verdict,
                    a,
                ) && available == makes_available(verdict),
    {
        self.test(proxy, host, hardcode_ips).is_available()
    }
}

/// The proxy answered: 200, 497, or a redirect.
pub open spec fn makes_available(verdict: Verdict) -> bool {
    match verdict {
        Verdict::Failed => false,
        Verdict::Status(status) => status == 200 || status == 497 || 300 < status < 400,
    }
}

/// What a test is about.
pub open spec fn asked_of(
    proxy: ProxyInfo,
    host: Seq<char>,
    hardcode_ips: Seq<String>,
) -> TestAsked {
    TestAsked { proxy: proxy@, host, hardcode_ips: texts(hardcode_ips) }
}

impl TestAsked {
    /// The connect was made, with what the host heard before and after.
    pub open spec fn connected(
        self,
        before: Seq<ProxyTold>,
        after: Seq<ProxyTold>,
        socket: Option<i64>,
        a: TestAnswers,
    ) -> bool {
        &&& after == before + self.connect_words(a)
        &&& socket == if self.is_nowhere(a) {
            None
        } else {
            a.socket
        }
    }

    /// The request was made, with what the host heard before and after.
    pub open spec fn wrote(
        self,
        before: Seq<ProxyTold>,
        after: Seq<ProxyTold>,
        socket: i64,
        go_on: bool,
        a: TestAnswers,
    ) -> bool {
        &&& after == before + self.request_words(a, socket)
        &&& go_on == self.is_read(a)
    }

    /// The test ran, with what its host heard before and after.
    pub open spec fn ran(
        self,
        before: Seq<ProxyTold>,
        after: Seq<ProxyTold>,
        verdict: Verdict,
        a: TestAnswers,
    ) -> bool {
        &&& after == before + self.run(a).0
        &&& verdict == self.run(a).1
        &&& self.reaches(a) matches Some(socket) ==> self.is_read(a) ==> is_whole(socket, a.reads)
    }
}

/// The connect is about the proxy, the host and the ips, and about what dns and
/// the connect answered.
proof fn lemma_connect_words(left: TestAsked, right: TestAsked, a: TestAnswers, b: TestAnswers)
    requires
        left.proxy == right.proxy,
        left.host == right.host,
        left.hardcode_ips == right.hardcode_ips,
        a.proxy_dns == b.proxy_dns,
        a.host_dns == b.host_dns,
        a.socket == b.socket,
    ensures
        left.connect_words(a) == right.connect_words(b),
        left.is_nowhere(a) == right.is_nowhere(b),
{
    assert(left.addresses(a) =~= right.addresses(b));
}

/// What was said before a read does not change what the read adds.
proof fn lemma_with_words(
    reading: Reading,
    before: Seq<ProxyTold>,
    socket: i64,
    a: ReadAnswer,
)
    ensures
        ({
            let all = (Reading { words: before + reading.words, ..reading }).with(socket, a);
            let part = reading.with(socket, a);
            all == (Reading { words: before + part.words, ..part })
        }),
{
    let all = (Reading { words: before + reading.words, ..reading }).with(socket, a);
    let part = reading.with(socket, a);
    assert(all.words =~= before + part.words);
}

/// A test that opened a socket closes it, and that is the last thing it says.
pub proof fn law_a_socket_is_always_closed(asked: TestAsked, a: TestAnswers, socket: i64)
    requires
        asked.is_question(),
        !asked.is_nowhere(a),
        a.socket == Some(socket),
    ensures
        asked.run(a).0.last() == (ProxyTold::Close { socket }),
{
}

/// A status that was read is not lost: whatever the later reads bring, the
/// answer still has one.
pub proof fn law_a_status_is_kept(socket: i64, answers: Seq<ReadAnswer>, j: int)
    requires
        0 <= j <= answers.len(),
        read_through(socket, answers.take(j)).status is Some,
    ensures
        read_through(socket, answers).status is Some,
    decreases answers.len() - j,
{
    if j < answers.len() {
        assert(answers.drop_last().take(j) =~= answers.take(j));
        law_a_status_is_kept(socket, answers.drop_last(), j);
    } else {
        assert(answers.take(j) =~= answers);
    }
}

/// Without a question nothing is asked of the host at all.
pub proof fn law_no_question_is_no_test(asked: TestAsked, a: TestAnswers)
    requires
        !asked.proxy.valid || (asked.host.len() == 0 && asked.hardcode_ips.len() == 0),
    ensures
        asked.run(a) == (Seq::<ProxyTold>::empty(), Verdict::Failed),
{
}

} // verus!
