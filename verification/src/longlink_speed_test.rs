//! Which of a link's pairs answers first.
//!
//! A long link does not ask dns which ip to use and then trust it: it races
//! them. The same noop goes out on every candidate pair at once, and the first
//! pair whose answer comes back is the pair the link is made on.
//!
//! One value is the state of a single candidate ([`SpeedTestItem`]): it knows
//! the noop it has to write, how much of it has gone out, what has come back,
//! and whether that was an answer ([`SpeedTestState`]). The other is the race
//! itself ([`LongLinkSpeedTest`]), which steps every candidate with what
//! happened on its socket ([`SocketEvent`]) and asks the item what it wants
//! next ([`Need`]).
//!
//! The host owns the sockets, the select and the clock ([`RaceHost`]).
use vstd::prelude::*;
use crate::ip_port::IpPortItem;
use crate::longlink::{
    law_a_package_that_is_not_whole_asks_for_more, law_what_packs_unpacks, longlink_pack,
    longlink_unpack, packed_bytes, unpacked_bytes, LongLinkEncoder, Unpacked, UnpackedView,
    HEADER_LEN, MAX_PACKAGE_LEN, NOOP_CMDID,
};
use crate::queue_spec::since;
use crate::task::Task;

verus! {

/// What a select is given, in milliseconds.
pub const TIMEOUT: u64 = 10 * 1000;

/// A package with this command id is a message from the server, not an answer
/// to the noop.
pub const OUT_OF_BAND_CMDID: u32 = 72;

/// How many interrupted selects a race sits through before it gives up.
pub const MAX_RETRIES: usize = 3;

/// How many rounds a race is given.
pub const MAX_ROUNDS: u64 = u64::MAX;

/// Where one candidate pair is.
#[derive(Debug, Clone, Copy, PartialEq, Eq, Structural)]
pub enum SpeedTestState {
    /// The connect is still in flight.
    Connecting,
    /// The noop is going out.
    Req,
    /// The answer is coming in.
    Resp,
    /// The server said something else first.
    OutOfBand,
    /// The noop was answered.
    Suc,
    Fail,
}

impl Default for SpeedTestState {
    fn default() -> (state: Self)
        ensures
            state == SpeedTestState::Connecting,
    {
        SpeedTestState::Connecting
    }
}

impl SpeedTestState {
    /// The race is over for the pair.
    pub open spec fn ended(self) -> bool {
        self == SpeedTestState::Suc || self == SpeedTestState::Fail
    }

    /// Whether the race is over for this pair.
    pub fn is_over(self) -> (over: bool)
        ensures
            over == self.ended(),
    {
        self == SpeedTestState::Suc || self == SpeedTestState::Fail
    }
}

/// What the host's select says happened on one socket this round.
#[derive(Debug, Clone, Copy, PartialEq, Eq, Structural)]
pub enum SocketEvent {
    /// Nothing was ready.
    Nothing,
    Readable,
    Writable,
    Exception,
}

/// What the item wants done with its socket next.
#[derive(Debug, Clone, Copy, PartialEq, Eq, Structural)]
pub enum Need {
    /// Nothing: the pair is done, or nothing was ready for it.
    Nothing,
    /// Write [`SpeedTestItem::pending`].
    Write,
    /// Read, and hand what came in to [`SpeedTestItem::on_received`].
    Read,
}

/// What the select has to watch a socket for.
#[derive(Debug, Clone, Copy, PartialEq, Eq, Structural)]
pub enum Watch {
    /// A pair that is done is watched for nothing.
    Nothing,
    /// Only reading is left.
    Read,
    /// Connecting, or the noop going out: both.
    ReadWrite,
}

/// Why the host's select gives up.
#[derive(Debug, Clone, Copy, PartialEq, Eq, Structural)]
pub enum Stop {
    Timeout,
    Interrupted,
    Exception,
    /// The breaker was woken.
    Broken,
}

/// One candidate pair: the noop it has to write, how much of it has gone out,
/// what has come back, and where that leaves it.
#[derive(Debug, Clone)]
pub struct SpeedTestItem {
    pub pair: IpPortItem,
    /// The version the packages are stamped with.
    pub client_version: u32,
    pub request: Vec<u8>,
    pub sent: usize,
    pub response: Vec<u8>,
    pub state: SpeedTestState,
    pub connect_started: u64,
    pub connected: Option<u64>,
}

/// The contents of a [`SpeedTestItem`].
pub struct ItemView {
    pub pair: IpPortItem,
    pub client_version: u32,
    pub request: Seq<u8>,
    pub sent: int,
    pub response: Seq<u8>,
    pub state: SpeedTestState,
    pub connect_started: u64,
    pub connected: Option<u64>,
}

impl View for SpeedTestItem {
    type V = ItemView;

    open spec fn view(&self) -> ItemView {
        ItemView {
            pair: self.pair,
            client_version: self.client_version,
            request: self.request@,
            sent: self.sent as int,
            response: self.response@,
            state: self.state,
            connect_started: self.connect_started,
            connected: self.connected,
        }
    }
}

impl ItemView {
    /// A pair whose connect has just started.
    pub open spec fn fresh(now: u64, client_version: u32, pair: IpPortItem) -> ItemView {
        ItemView {
            pair,
            client_version,
            request: packed_bytes(client_version, NOOP_CMDID, Task::NOOP_TASK_ID, seq![]),
            sent: 0,
            response: seq![],
            state: SpeedTestState::Connecting,
            connect_started: now,
            connected: None,
        }
    }

    /// No more of the noop has gone out than there is of it.
    pub open spec fn wf(self) -> bool {
        0 <= self.sent <= self.request.len() && self.request.len() == HEADER_LEN
    }

    /// What is left of the noop.
    pub open spec fn pending(self) -> Seq<u8> {
        self.request.skip(self.sent)
    }

    /// One thing happened on the socket: the first write it takes is the
    /// connect finishing, and a pair that is done is left alone.
    pub open spec fn applied(self, event: SocketEvent, now: u64) -> (ItemView, Need) {
        if self.state.ended() {
            (self, Need::Nothing)
        } else {
            match event {
                SocketEvent::Nothing => (self, Need::Nothing),
                SocketEvent::Exception => (
                    ItemView { state: SpeedTestState::Fail, ..self },
                    Need::Nothing,
                ),
                SocketEvent::Writable => (
                    ItemView {
                        state: SpeedTestState::Req,
                        connected: match self.connected {
                            Some(at) => Some(at),
                            None => Some(now),
                        },
                        ..self
                    },
                    Need::Write,
                ),
                SocketEvent::Readable => (
                    ItemView { state: SpeedTestState::Resp, ..self },
                    Need::Read,
                ),
            }
        }
    }

    /// So much of the noop went out; nothing is a fail.
    pub open spec fn written(self, count: int) -> (ItemView, Need) {
        if count <= 0 {
            (ItemView { state: SpeedTestState::Fail, ..self }, Need::Nothing)
        } else if self.sent + count >= self.request.len() {
            (
                ItemView {
                    sent: self.request.len() as int,
                    state: SpeedTestState::Resp,
                    ..self
                },
                Need::Read,
            )
        } else {
            (
                ItemView { sent: self.sent + count, state: SpeedTestState::Req, ..self },
                Need::Write,
            )
        }
    }

    /// Bytes came in; none are a fail. An out-of-band package is thrown away,
    /// and the noop goes out again; the answer to the noop is what wins.
    pub open spec fn received(self, bytes: Seq<u8>) -> (ItemView, Need) {
        let response = self.response + bytes;
        let with = ItemView { response, ..self };
        if bytes.len() == 0 {
            (ItemView { state: SpeedTestState::Fail, ..self }, Need::Nothing)
        } else {
            match unpacked_bytes(self.client_version, response) {
                UnpackedView::Continue => (
                    ItemView { state: SpeedTestState::Resp, ..with },
                    Need::Read,
                ),
                UnpackedView::False => (
                    ItemView { state: SpeedTestState::Fail, ..with },
                    Need::Nothing,
                ),
                UnpackedView::Package { cmdid, .. } => if cmdid == OUT_OF_BAND_CMDID {
                    (
                        ItemView {
                            response: seq![],
                            sent: 0,
                            state: SpeedTestState::OutOfBand,
                            ..self
                        },
                        Need::Write,
                    )
                } else if cmdid == NOOP_CMDID {
                    (ItemView { state: SpeedTestState::Suc, ..with }, Need::Nothing)
                } else {
                    (ItemView { state: SpeedTestState::Fail, ..with }, Need::Nothing)
                },
            }
        }
    }

    /// What the select has to watch the socket for.
    pub open spec fn watched(self) -> Watch {
        match self.state {
            SpeedTestState::Connecting | SpeedTestState::Req | SpeedTestState::OutOfBand => {
                Watch::ReadWrite
            },
            SpeedTestState::Resp => Watch::Read,
            SpeedTestState::Suc | SpeedTestState::Fail => Watch::Nothing,
        }
    }

    /// How long the connect took; nothing until the socket took a write.
    pub open spec fn connect_took(self) -> u64 {
        match self.connected {
            Some(at) => since(at, self.connect_started),
            None => 0,
        }
    }
}

impl SpeedTestItem {
    /// One candidate pair, with the reading of the clock the connect starts at
    /// and the version its noop is stamped with.
    pub fn new_at(now: u64, client_version: u32, pair: IpPortItem) -> (item: Self)
        ensures
            item@ == ItemView::fresh(now, client_version, pair),
            item@.wf(),
    {
        let encoder = LongLinkEncoder::new();
        let nothing: Vec<u8> = Vec::new();
        assert(nothing@ =~= seq![]);
        let request = longlink_pack(
            client_version,
            encoder.noop_cmdid(),
            Task::NOOP_TASK_ID,
            nothing.as_slice(),
        );
        SpeedTestItem {
            pair,
            client_version,
            request,
            sent: 0,
            response: Vec::new(),
            state: SpeedTestState::Connecting,
            connect_started: now,
            connected: None,
        }
    }

    /// The version an answer has to have from here on; the noop that is going out
    /// keeps the one it was made with.
    pub fn set_client_version(&mut self, client_version: u32)
        ensures
            final(self)@ == (ItemView { client_version, ..old(self)@ }),
    {
        self.client_version = client_version;
    }

    /// Where the pair is.
    pub fn state(&self) -> (state: SpeedTestState)
        ensures
            state == self@.state,
    {
        self.state
    }

    /// The pair this item is testing.
    pub fn pair(&self) -> (pair: &IpPortItem)
        ensures
            *pair == self@.pair,
    {
        &self.pair
    }

    /// How long the connect took, in milliseconds.
    pub fn connect_ms(&self) -> (ms: u64)
        ensures
            ms == self@.connect_took(),
    {
        match self.connected {
            Some(at) => at.saturating_sub(self.connect_started),
            None => 0,
        }
    }

    /// What the select has to watch this socket for.
    pub fn watch(&self) -> (watch: Watch)
        ensures
            watch == self@.watched(),
    {
        match self.state {
            SpeedTestState::Connecting | SpeedTestState::Req | SpeedTestState::OutOfBand => {
                Watch::ReadWrite
            },
            SpeedTestState::Resp => Watch::Read,
            SpeedTestState::Suc | SpeedTestState::Fail => Watch::Nothing,
        }
    }

    /// The bytes of the noop that have not gone out yet.
    pub fn pending(&self) -> (bytes: &[u8])
        requires
            self@.wf(),
        ensures
            bytes@ == self@.pending(),
    {
        let bytes = vstd::slice::slice_subrange(
            self.request.as_slice(),
            self.sent,
            self.request.len(),
        );
        assert(bytes@ =~= self@.pending());
        bytes
    }

    /// One thing happened on the socket, and this is what the item wants next.
    pub fn apply(&mut self, event: SocketEvent, now: u64) -> (need: Need)
        ensures
            (final(self)@, need) == old(self)@.applied(event, now),
    {
        if self.state.is_over() {
            return Need::Nothing;
        }
        match event {
            SocketEvent::Nothing => Need::Nothing,
            SocketEvent::Exception => {
                self.state = SpeedTestState::Fail;
                Need::Nothing
            },
            SocketEvent::Writable => {
                if self.connected.is_none() {
                    self.connected = Some(now);
                }
                self.state = SpeedTestState::Req;
                Need::Write
            },
            SocketEvent::Readable => {
                self.state = SpeedTestState::Resp;
                Need::Read
            },
        }
    }

    /// So many bytes went out, and this is what the item wants next.
    pub fn on_sent(&mut self, written: isize) -> (need: Need)
        requires
            old(self)@.wf(),
        ensures
            final(self)@.wf(),
            (final(self)@, need) == old(self)@.written(written as int),
    {
        if written <= 0 {
            self.state = SpeedTestState::Fail;
            return Need::Nothing;
        }
        let left: usize = self.request.len() - self.sent;
        if written as usize >= left {
            self.sent = self.request.len();
            self.state = SpeedTestState::Resp;
            Need::Read
        } else {
            self.sent = self.sent + written as usize;
            self.state = SpeedTestState::Req;
            Need::Write
        }
    }

    /// Bytes came in, and this is what the item wants next.
    pub fn on_received(&mut self, bytes: &[u8]) -> (need: Need)
        requires
            old(self)@.wf(),
        ensures
            final(self)@.wf(),
            (final(self)@, need) == old(self)@.received(bytes@),
    {
        if bytes.len() == 0 {
            self.state = SpeedTestState::Fail;
            return Need::Nothing;
        }
        self.response.extend_from_slice(bytes);
        assert(self.response@ =~= old(self)@.response + bytes@);
        match longlink_unpack(self.client_version, self.response.as_slice()) {
            Unpacked::Continue => {
                self.state = SpeedTestState::Resp;
                Need::Read
            },
            Unpacked::False => {
                self.state = SpeedTestState::Fail;
                Need::Nothing
            },
            Unpacked::Package { cmdid, .. } => {
                if cmdid == OUT_OF_BAND_CMDID {
                    self.response.clear();
                    assert(self.response@ =~= seq![]);
                    self.sent = 0;
                    self.state = SpeedTestState::OutOfBand;
                    return Need::Write;
                }
                let encoder = LongLinkEncoder::new();
                if encoder.noop_isresp(Task::NOOP_TASK_ID, cmdid) {
                    self.state = SpeedTestState::Suc;
                } else {
                    self.state = SpeedTestState::Fail;
                }
                Need::Nothing
            },
        }
    }
}

/// One thing that was done on a socket, and the answer.
#[allow(inconsistent_fields)]
pub enum IoTold {
    Sent { bytes: Seq<u8>, answer: isize },
    Received { answer: Seq<u8> },
}

/// The contents of a [`Socket`].
pub struct SocketView {
    /// Which socket it is.
    pub id: int,
    /// Everything that was done on it so far, in order.
    pub heard: Seq<IoTold>,
}

impl SocketView {
    /// More was done on the socket.
    pub open spec fn with(self, words: Seq<IoTold>) -> SocketView {
        SocketView { heard: self.heard + words, ..self }
    }
}

/// What the host does with one socket. Letting one go is what closes it.
///
/// A socket may answer what it likes; each call is one more thing that was done
/// on it.
pub trait SocketIo: Sized {
    /// Which socket it is.
    open spec fn id(&self) -> int {
        0
    }

    /// Everything that was done on it so far, in order.
    open spec fn heard(&self) -> Seq<IoTold> {
        Seq::empty()
    }

    /// Bytes go out, and so many of them did; nothing is a fail.
    fn send(&mut self, bytes: &[u8]) -> (answer: isize)
        ensures
            final(self).id() == old(self).id(),
            final(self).heard() == old(self).heard().push(IoTold::Sent { bytes: bytes@, answer }),
    ;

    /// The bytes that came in; none are a fail.
    fn recv(&mut self) -> (answer: Vec<u8>)
        ensures
            final(self).id() == old(self).id(),
            final(self).heard() == old(self).heard().push(IoTold::Received { answer: answer@ }),
    ;
}

/// The socket of one candidate pair.
pub struct Socket<S> {
    pub io: S,
}

impl<S: SocketIo> View for Socket<S> {
    type V = SocketView;

    open spec fn view(&self) -> SocketView {
        SocketView { id: self.io.id(), heard: self.io.heard() }
    }
}

/// The contents of the sockets.
pub open spec fn socket_views<S: SocketIo>(sockets: Seq<Socket<S>>) -> Seq<SocketView> {
    sockets.map_values(|socket: Socket<S>| socket@)
}

/// Which socket the host made, if it made one.
pub open spec fn made_view<S: SocketIo>(made: Option<S>) -> Option<SocketView> {
    match made {
        Some(io) => Some(SocketView { id: io.id(), heard: io.heard() }),
        None => None,
    }
}

impl<S: SocketIo> Socket<S> {
    /// A socket that writes and reads through the host's.
    pub fn new(io: S) -> (socket: Self)
        ensures
            socket.io == io,
    {
        Socket { io }
    }
}

/// The host of a race: the sockets, the select and the clock.
///
/// A host may answer what it likes; each call is one more thing that it heard.
pub trait RaceHost<S: SocketIo>: Sized {
    /// Everything the host was told and asked so far, in order. Each host says
    /// what that is of it.
    open spec fn heard(&self) -> Seq<RaceTold> {
        Seq::empty()
    }

    /// A socket to a pair; `None` is a host that makes none.
    fn open(&mut self, ip: &str, port: u16) -> (answer: Option<S>)
        ensures
            final(self).heard() == old(self).heard().push(
                RaceTold::Opened { ip: ip@, port, answer: made_view(answer) },
            ),
    ;

    /// What is ready on each socket this round, in the order of the
    /// candidates, or why the race has to stop.
    fn select(&mut self, items: &[SpeedTestItem]) -> (answer: Result<Vec<SocketEvent>, Stop>)
        ensures
            final(self).heard() == old(self).heard().push(
                RaceTold::Selected { items: item_views(items@), answer: select_view(answer) },
            ),
    ;

    /// The reading of the clock.
    fn tick(&mut self) -> (answer: u64)
        ensures
            final(self).heard() == old(self).heard().push(RaceTold::Tick { answer }),
    ;
}

/// One thing a race did with the host, and the answer.
#[allow(inconsistent_fields)]
pub enum RaceTold {
    Opened { ip: Seq<char>, port: u16, answer: Option<SocketView> },
    Selected { items: Seq<ItemView>, answer: Result<Seq<SocketEvent>, Stop> },
    Tick { answer: u64 },
}

/// What a socket answered in a round.
pub struct IoAnswer {
    pub written: isize,
    pub bytes: Seq<u8>,
}

impl ItemView {
    /// A candidate is stepped with its event, and what it wants written or read
    /// is done on its socket; a candidate without one fails what it wants.
    pub open spec fn stepped(
        self,
        event: SocketEvent,
        now: u64,
        has_socket: bool,
        io: IoAnswer,
    ) -> (ItemView, Need) {
        let (next, need) = self.applied(event, now);
        match need {
            Need::Nothing => (next, need),
            Need::Write => next.written(
                if has_socket {
                    io.written as int
                } else {
                    -1
                },
            ),
            Need::Read => next.received(
                if has_socket {
                    io.bytes
                } else {
                    seq![]
                },
            ),
        }
    }

    /// What a step does with the socket.
    pub open spec fn step_words(
        self,
        event: SocketEvent,
        now: u64,
        io: IoAnswer,
    ) -> Seq<IoTold> {
        let (next, need) = self.applied(event, now);
        match need {
            Need::Nothing => seq![],
            Need::Write => seq![IoTold::Sent { bytes: next.pending(), answer: io.written }],
            Need::Read => seq![IoTold::Received { answer: io.bytes }],
        }
    }
}

/// What the host's hands back: which candidate won, and how long its connect
/// took.
#[derive(Debug, Clone, PartialEq, Eq)]
pub struct Fastest {
    /// The pair whose noop was answered.
    pub pair: IpPortItem,
    pub connect_ms: u64,
    /// Which of the candidates it was.
    pub socket: usize,
}

/// The race: one item per candidate pair and one socket per item.
pub struct LongLinkSpeedTest<H, S> {
    /// The sockets, the select and the clock.
    pub host: H,
    pub items: Vec<SpeedTestItem>,
    pub sockets: Vec<Socket<S>>,
    /// How many interrupted selects were sat through.
    pub retries: usize,
}

/// The contents of a [`LongLinkSpeedTest`].
pub struct RaceView {
    pub items: Seq<ItemView>,
    /// The sockets that are open, by candidate.
    pub sockets: Seq<SocketView>,
    pub retries: int,
    /// Everything the host was told and asked so far, in order.
    pub told: Seq<RaceTold>,
}

/// The contents of the candidates.
pub open spec fn item_views(items: Seq<SpeedTestItem>) -> Seq<ItemView> {
    items.map_values(|item: SpeedTestItem| item@)
}

impl<H: RaceHost<S>, S: SocketIo> View for LongLinkSpeedTest<H, S> {
    type V = RaceView;

    open spec fn view(&self) -> RaceView {
        RaceView {
            items: item_views(self.items@),
            sockets: socket_views(self.sockets@),
            retries: self.retries as int,
            told: self.host.heard(),
        }
    }
}

/// What one round was answered.
pub struct RoundAnswer {
    pub select: Result<Seq<SocketEvent>, Stop>,
    /// The reading of the clock.
    pub now: u64,
    /// What the sockets answered, by candidate.
    pub io: Seq<IoAnswer>,
}

impl RaceView {
    /// The candidates, with no socket open yet.
    pub open spec fn fresh(
        now: u64,
        client_version: u32,
        pairs: Seq<IpPortItem>,
        told: Seq<RaceTold>,
    ) -> RaceView {
        RaceView {
            items: pairs.map_values(|pair: IpPortItem| ItemView::fresh(now, client_version, pair)),
            sockets: seq![],
            retries: 0,
            told,
        }
    }

    /// Every candidate is sound.
    pub open spec fn wf(self) -> bool {
        &&& forall|i: int| 0 <= i < self.items.len() ==> (#[trigger] self.items[i]).wf()
        &&& 0 <= self.retries <= MAX_RETRIES
    }

    /// The first `n` candidates are stepped.
    pub open spec fn stepped_items(
        self,
        events: Seq<SocketEvent>,
        now: u64,
        io: Seq<IoAnswer>,
        n: int,
    ) -> Seq<ItemView> {
        Seq::new(
            self.items.len(),
            |i: int|
                if i < n {
                    self.items[i].stepped(events[i], now, i < self.sockets.len(), io[i]).0
                } else {
                    self.items[i]
                },
        )
    }

    /// What the first `n` candidates want next.
    pub open spec fn needs(
        self,
        events: Seq<SocketEvent>,
        now: u64,
        io: Seq<IoAnswer>,
        n: int,
    ) -> Seq<Need> {
        Seq::new(
            n as nat,
            |i: int| self.items[i].stepped(events[i], now, i < self.sockets.len(), io[i]).1,
        )
    }

    /// The sockets once the first `n` candidates were stepped.
    pub open spec fn stepped_sockets(
        self,
        events: Seq<SocketEvent>,
        now: u64,
        io: Seq<IoAnswer>,
        n: int,
    ) -> Seq<SocketView> {
        Seq::new(
            self.sockets.len(),
            |i: int|
                if i < n {
                    self.sockets[i].with(self.items[i].step_words(events[i], now, io[i]))
                } else {
                    self.sockets[i]
                },
        )
    }

    /// How many candidates a round steps.
    pub open spec fn stepping(self, events: Seq<SocketEvent>) -> int {
        if events.len() < self.items.len() {
            events.len() as int
        } else {
            self.items.len() as int
        }
    }

    /// One round: every candidate is stepped with its event.
    pub open spec fn rounded(
        self,
        events: Seq<SocketEvent>,
        now: u64,
        io: Seq<IoAnswer>,
    ) -> RaceView {
        let n = self.stepping(events);
        RaceView {
            items: self.stepped_items(events, now, io, n),
            sockets: self.stepped_sockets(events, now, io, n),
            ..self
        }
    }

    /// A pair was answered, or every pair has failed.
    pub open spec fn decided(self) -> bool {
        ||| exists|i: int|
            0 <= i < self.items.len() && (#[trigger] self.items[i]).state == SpeedTestState::Suc
        ||| forall|i: int|
            0 <= i < self.items.len() ==> (#[trigger] self.items[i]).state == SpeedTestState::Fail
    }

    /// The first candidate that was answered, or the end of them.
    pub open spec fn first_answered(self, from: int) -> int
        decreases self.items.len() - from,
    {
        if from >= self.items.len() {
            from
        } else if self.items[from].state == SpeedTestState::Suc {
            from
        } else {
            self.first_answered(from + 1)
        }
    }
}

impl<H: RaceHost<S>, S: SocketIo> LongLinkSpeedTest<H, S> {
    /// The candidates, with the reading of the clock the connects start at.
    pub fn new_at(host: H, now: u64, client_version: u32, pairs: Vec<IpPortItem>) -> (test: Self)
        ensures
            test@ == RaceView::fresh(now, client_version, pairs@, host.heard()),
            test@.wf(),
    {
        let mut items: Vec<SpeedTestItem> = Vec::new();
        let mut i: usize = 0;
        while i < pairs.len()
            invariant
                i <= pairs@.len(),
                items@.len() == i,
                forall|k: int|
                    0 <= k < i ==> (#[trigger] items@[k])@ == ItemView::fresh(
                        now,
                        client_version,
                        pairs@[k],
                    ) && items@[k]@.wf(),
            decreases pairs@.len() - i,
        {
            items.push(SpeedTestItem::new_at(now, client_version, pairs[i].copy()));
            i += 1;
        }
        let test = LongLinkSpeedTest {
            host,
            items,
            sockets: Vec::new(),
            retries: 0,
        };
        assert(test@.items =~= RaceView::fresh(
            now,
            client_version,
            pairs@,
            test.host.heard(),
        ).items);
        assert(test@.sockets =~= seq![]);
        test
    }

    /// The candidates, in the order they were handed in.
    pub fn items(&self) -> (items: &[SpeedTestItem])
        ensures
            item_views(items@) == self@.items,
    {
        self.items.as_slice()
    }

    /// What the host reports: every pair with where its race ended.
    pub fn results(&self) -> (results: Vec<(IpPortItem, SpeedTestState)>)
        ensures
            results@ == self@.items.map_values(|item: ItemView| (item.pair, item.state)),
    {
        let mut results: Vec<(IpPortItem, SpeedTestState)> = Vec::new();
        let mut i: usize = 0;
        while i < self.items.len()
            invariant
                i <= self.items@.len(),
                results@.len() == i,
                forall|k: int|
                    0 <= k < i ==> #[trigger] results@[k] == (
                        self.items@[k].pair,
                        self.items@[k].state,
                    ),
            decreases self.items@.len() - i,
        {
            results.push((self.items[i].pair().copy(), self.items[i].state()));
            i += 1;
        }
        assert(results@ =~= self@.items.map_values(|item: ItemView| (item.pair, item.state)));
        results
    }

    /// How many sockets are still open; after a race this is one at most.
    pub fn open_sockets(&self) -> (count: usize)
        ensures
            count == self@.sockets.len(),
    {
        self.sockets.len()
    }

    /// What an item wants written is written on its socket.
    fn write_on(&mut self, index: usize) -> (r: (Need, Ghost<IoAnswer>))
        requires
            index < old(self)@.items.len(),
            old(self)@.items[index as int].wf(),
        ensures
            ({
                let item = old(self)@.items[index as int];
                let has = index < old(self)@.sockets.len();
                let count = if has {
                    r.1@.written as int
                } else {
                    -1
                };
                &&& r.0 == item.written(count).1
                &&& item.written(count).0.wf()
                &&& final(self)@ == (RaceView {
                    items: old(self)@.items.update(index as int, item.written(count).0),
                    sockets: if has {
                        old(self)@.sockets.update(
                            index as int,
                            old(self)@.sockets[index as int].with(
                                seq![IoTold::Sent { bytes: item.pending(), answer: r.1@.written }],
                            ),
                        )
                    } else {
                        old(self)@.sockets
                    },
                    ..old(self)@
                })
            }),
    {
        let mut written: isize = -1;
        if index < self.sockets.len() {
            written = self.sockets[index].io.send(self.items[index].pending());
            proof {
                let word = IoTold::Sent {
                    bytes: old(self)@.items[index as int].pending(),
                    answer: written,
                };
                lemma_one_word(old(self)@.sockets[index as int].heard, word);
                assert(self@.sockets =~= old(self)@.sockets.update(
                    index as int,
                    old(self)@.sockets[index as int].with(seq![word]),
                ));
            }
        }
        let need = self.items[index].on_sent(written);
        assert(self@.items =~= old(self)@.items.update(
            index as int,
            old(self)@.items[index as int].written(written as int).0,
        ));
        (need, Ghost(IoAnswer { written, bytes: seq![] }))
    }

    /// What came in on the socket of an item is handed to it.
    fn read_on(&mut self, index: usize) -> (r: (Need, Ghost<IoAnswer>))
        requires
            index < old(self)@.items.len(),
            old(self)@.items[index as int].wf(),
        ensures
            ({
                let item = old(self)@.items[index as int];
                let has = index < old(self)@.sockets.len();
                let bytes = if has {
                    r.1@.bytes
                } else {
                    seq![]
                };
                &&& r.0 == item.received(bytes).1
                &&& item.received(bytes).0.wf()
                &&& final(self)@ == (RaceView {
                    items: old(self)@.items.update(index as int, item.received(bytes).0),
                    sockets: if has {
                        old(self)@.sockets.update(
                            index as int,
                            old(self)@.sockets[index as int].with(
                                seq![IoTold::Received { answer: r.1@.bytes }],
                            ),
                        )
                    } else {
                        old(self)@.sockets
                    },
                    ..old(self)@
                })
            }),
    {
        let mut bytes: Vec<u8> = Vec::new();
        assert(bytes@ =~= seq![]);
        if index < self.sockets.len() {
            bytes = self.sockets[index].io.recv();
            proof {
                let word = IoTold::Received { answer: bytes@ };
                lemma_one_word(old(self)@.sockets[index as int].heard, word);
                assert(self@.sockets =~= old(self)@.sockets.update(
                    index as int,
                    old(self)@.sockets[index as int].with(seq![word]),
                ));
            }
        }
        let need = self.items[index].on_received(bytes.as_slice());
        assert(self@.items =~= old(self)@.items.update(
            index as int,
            old(self)@.items[index as int].received(bytes@).0,
        ));
        (need, Ghost(IoAnswer { written: 0, bytes: bytes@ }))
    }

    /// One candidate is stepped.
    fn step(&mut self, index: usize, event: SocketEvent, now: u64) -> (r: (Need, Ghost<IoAnswer>))
        requires
            index < old(self)@.items.len(),
            old(self)@.items[index as int].wf(),
        ensures
            ({
                let item = old(self)@.items[index as int];
                let has = index < old(self)@.sockets.len();
                let (next, need) = item.stepped(event, now, has, r.1@);
                &&& r.0 == need
                &&& next.wf()
                &&& final(self)@ == (RaceView {
                    items: old(self)@.items.update(index as int, next),
                    sockets: if has {
                        old(self)@.sockets.update(
                            index as int,
                            old(self)@.sockets[index as int].with(
                                item.step_words(event, now, r.1@),
                            ),
                        )
                    } else {
                        old(self)@.sockets
                    },
                    ..old(self)@
                })
            }),
    {
        let ghost before = self@;
        proof {
            if index < before.sockets.len() {
                let heard = before.sockets[index as int].heard;
                assert(heard + Seq::<IoTold>::empty() =~= heard);
                assert(before.sockets.update(index as int, before.sockets[index as int])
                    =~= before.sockets);
            }
        }
        let need = self.items[index].apply(event, now);
        let ghost applied = before.items[index as int].applied(event, now).0;
        assert(self@.items =~= before.items.update(index as int, applied));
        assert(self@.items[index as int] == applied);
        match need {
            Need::Nothing => (need, Ghost(IoAnswer { written: 0, bytes: seq![] })),
            Need::Write => {
                let r = self.write_on(index);
                assert(self@.items =~= before.items.update(index as int, self@.items[index as int]));
                r
            },
            Need::Read => {
                let r = self.read_on(index);
                assert(self@.items =~= before.items.update(index as int, self@.items[index as int]));
                r
            },
        }
    }
}

impl RaceView {
    /// The candidates from `from` up to `to` got a socket.
    pub open spec fn open_words(self, all: Seq<SocketView>, from: int, to: int) -> Seq<RaceTold>
        decreases to - from,
    {
        if to <= from {
            seq![]
        } else {
            self.open_words(all, from, to - 1).push(
                RaceTold::Opened {
                    ip: self.items[to - 1].pair.ip@,
                    port: self.items[to - 1].pair.port,
                    answer: Some(all[to - 1]),
                },
            )
        }
    }

    /// The sockets are opened, up to the first one the host makes none for.
    pub open spec fn opened(self, all: Seq<SocketView>) -> RaceView {
        let to = all.len() as int;
        let made = self.told + self.open_words(all, self.sockets.len() as int, to);
        RaceView {
            sockets: all,
            told: if to < self.items.len() {
                made.push(
                    RaceTold::Opened {
                        ip: self.items[to].pair.ip@,
                        port: self.items[to].pair.port,
                        answer: None,
                    },
                )
            } else {
                made
            },
            ..self
        }
    }

    /// A round of the race: an interrupted select is sat through, but not for
    /// ever, and the clock is read again after every select unless the reading
    /// is the caller's.
    pub open spec fn round_run(self, r: RoundAnswer, fixed: Option<u64>) -> RaceView {
        let asked = self.told.push(
            RaceTold::Selected { items: self.items, answer: r.select },
        );
        match r.select {
            Ok(events) => RaceView {
                told: if fixed is Some {
                    asked
                } else {
                    asked.push(RaceTold::Tick { answer: r.now })
                },
                ..self
            }.rounded(events, r.now, r.io),
            Err(Stop::Interrupted) => RaceView {
                retries: if self.retries < MAX_RETRIES {
                    self.retries + 1
                } else {
                    self.retries
                },
                told: asked,
                ..self
            },
            Err(_) => RaceView { told: asked, ..self },
        }
    }

    /// A round ends the race.
    pub open spec fn ends(self, r: RoundAnswer, fixed: Option<u64>) -> bool {
        match r.select {
            Ok(_) => self.round_run(r, fixed).decided(),
            Err(Stop::Interrupted) => self.retries >= MAX_RETRIES,
            Err(_) => true,
        }
    }

    /// The race after so many rounds.
    pub open spec fn run(self, rounds: Seq<RoundAnswer>, fixed: Option<u64>) -> RaceView
        decreases rounds.len(),
    {
        if rounds.len() == 0 {
            self
        } else {
            self.run(rounds.drop_last(), fixed).round_run(rounds.last(), fixed)
        }
    }

    /// The rounds of a race: none but the last ends it, and the last one does
    /// unless there are no more rounds to be had.
    pub open spec fn is_race(self, rounds: Seq<RoundAnswer>, fixed: Option<u64>) -> bool {
        &&& forall|i: int|
            0 <= i < rounds.len() - 1 ==> !self.run(#[trigger] rounds.take(i), fixed).ends(
                rounds[i],
                fixed,
            )
        &&& forall|i: int|
            0 <= i < rounds.len() ==> (fixed matches Some(now) ==> (#[trigger] rounds[i]).now
                == now)
        &&& rounds.len() == MAX_ROUNDS || (rounds.len() > 0 && self.run(
            rounds.drop_last(),
            fixed,
        ).ends(rounds.last(), fixed))
    }

    /// The sockets of the pairs that lost are closed.
    pub open spec fn closed(self) -> RaceView {
        RaceView {
            sockets: if self.first_answered(0) < self.items.len() && self.first_answered(0)
                < self.sockets.len() {
                seq![self.sockets[self.first_answered(0)]]
            } else {
                seq![]
            },
            ..self
        }
    }

    /// The pair that was answered.
    pub open spec fn is_fastest(self, fastest: Option<Fastest>) -> bool {
        let at = self.first_answered(0);
        match fastest {
            Some(won) => {
                &&& at < self.items.len()
                &&& won.socket == at
                &&& won.pair == self.items[at].pair
                &&& won.connect_ms == self.items[at].connect_took()
            },
            None => at >= self.items.len(),
        }
    }
}

/// The contents of what a select answered.
pub open spec fn select_view(answer: Result<Vec<SocketEvent>, Stop>) -> Result<
    Seq<SocketEvent>,
    Stop,
> {
    match answer {
        Ok(events) => Ok(events@),
        Err(stop) => Err(stop),
    }
}

impl<H: RaceHost<S>, S: SocketIo> LongLinkSpeedTest<H, S> {
    /// One round: every candidate is stepped.
    fn step_all(&mut self, events: &[SocketEvent], now: u64) -> (r: (
        Vec<Need>,
        Ghost<Seq<IoAnswer>>,
    ))
        requires
            old(self)@.wf(),
        ensures
            final(self)@.wf(),
            final(self)@ == old(self)@.rounded(events@, now, r.1@),
            r.0@ == old(self)@.needs(events@, now, r.1@, old(self)@.stepping(events@)),
            r.1@.len() == old(self)@.stepping(events@),
    {
        let ghost before = self@;
        let mut needs: Vec<Need> = Vec::new();
        let ghost mut io: Seq<IoAnswer> = seq![];
        let mut i: usize = 0;
        proof {
            assert(before.stepped_items(events@, now, io, 0) =~= before.items);
            assert(before.stepped_sockets(events@, now, io, 0) =~= before.sockets);
        }
        while i < events.len() && i < self.items.len()
            invariant
                before.wf(),
                self@.wf(),
                self@.items.len() == before.items.len(),
                i <= before.stepping(events@),
                io.len() == i,
                self@.items == before.stepped_items(events@, now, io, i as int),
                self@.sockets == before.stepped_sockets(events@, now, io, i as int),
                self@.retries == before.retries,
                self@.told == before.told,
                needs@ == before.needs(events@, now, io, i as int),
            decreases before.items.len() - i,
        {
            let ghost io_before = io;
            let ghost mid = self@;
            assert(mid.items[i as int] == before.items[i as int]);
            let (need, Ghost(answer)) = self.step(i, events[i], now);
            needs.push(need);
            proof {
                io = io.push(answer);
                assert(io[i as int] == answer);
                assert(self@.items =~= before.stepped_items(events@, now, io, i + 1));
                assert(needs@ =~= before.needs(events@, now, io, i + 1));
                assert(self@.sockets =~= before.stepped_sockets(events@, now, io, i + 1));
                assert forall|k: int| 0 <= k < self@.items.len() implies (
                #[trigger] self@.items[k]).wf() by {
                    if k != i {
                        assert(self@.items[k] == mid.items[k]);
                    }
                }
            }
            i += 1;
        }
        (needs, Ghost(io))
    }

    /// One round of the race: every candidate is stepped with its event, and
    /// what it wants written or read is done on its socket.
    pub fn round(&mut self, events: &[SocketEvent], now: u64) -> (needs: Vec<Need>)
        requires
            old(self)@.wf(),
        ensures
            final(self)@.wf(),
            exists|io: Seq<IoAnswer>|
                {
                    &&& final(self)@ == #[trigger] old(self)@.rounded(events@, now, io)
                    &&& needs@ == old(self)@.needs(
                        events@,
                        now,
                        io,
                        old(self)@.stepping(events@),
                    )
                },
    {
        let (needs, Ghost(io)) = self.step_all(events, now);
        needs
    }

    /// The sockets are opened, up to the first one the host makes none for.
    fn open_all(&mut self)
        requires
            old(self)@.wf(),
        ensures
            final(self)@.wf(),
            old(self)@.is_open(final(self)@),
    {
        let ghost before = self@;
        if self.sockets.len() >= self.items.len() {
            return;
        }
        assert(before.told + Seq::<RaceTold>::empty() =~= before.told);
        assert(self@.sockets.take(before.sockets.len() as int) =~= before.sockets);
        while self.sockets.len() < self.items.len()
            invariant
                before == old(self)@,
                before.wf(),
                before.sockets.len() < before.items.len(),
                before.sockets.len() <= self@.sockets.len() <= before.items.len(),
                self@.sockets.take(before.sockets.len() as int) == before.sockets,
                self@ == (RaceView {
                    sockets: self@.sockets,
                    told: before.told + before.open_words(
                        self@.sockets,
                        before.sockets.len() as int,
                        self@.sockets.len() as int,
                    ),
                    ..before
                }),
            decreases before.items.len() - self@.sockets.len(),
        {
            let at: usize = self.sockets.len();
            let ghost made = self@;
            assert(made.items[at as int] == self.items@[at as int]@);
            let opened = self.host.open(self.items[at].pair.ip.as_str(), self.items[at].pair.port);
            match opened {
                Some(io) => {
                    self.sockets.push(Socket::new(io));
                    proof {
                        let all = self@.sockets;
                        assert(all =~= made.sockets.push(all[at as int]));
                        lemma_open_words(
                            before,
                            made.sockets,
                            all,
                            before.sockets.len() as int,
                            at as int,
                        );
                        assert(all.take(before.sockets.len() as int) =~= before.sockets) by {
                            assert forall|i: int| 0 <= i < before.sockets.len() implies all[i]
                                == before.sockets[i] by {
                                assert(made.sockets.take(before.sockets.len() as int)[i]
                                    == before.sockets[i]);
                            }
                        }
                        assert(self@.told =~= before.told + before.open_words(
                            all,
                            before.sockets.len() as int,
                            all.len() as int,
                        ));
                    }
                },
                None => {
                    assert(self@ == before.opened(self@.sockets));
                    return;
                },
            }
        }
        assert(self@ == before.opened(self@.sockets));
    }

    /// Whether a pair was answered, or every pair has failed.
    fn is_decided(&self) -> (decided: bool)
        ensures
            decided == self@.decided(),
    {
        let mut all_failed = true;
        let mut i: usize = 0;
        while i < self.items.len()
            invariant
                i <= self.items@.len(),
                forall|k: int|
                    0 <= k < i ==> (#[trigger] self@.items[k]).state != SpeedTestState::Suc,
                all_failed == (forall|k: int|
                    0 <= k < i ==> (#[trigger] self@.items[k]).state == SpeedTestState::Fail),
            decreases self.items@.len() - i,
        {
            assert(self@.items[i as int] == self.items@[i as int]@);
            let state = self.items[i].state();
            if state == SpeedTestState::Suc {
                return true;
            }
            if state != SpeedTestState::Fail {
                all_failed = false;
            }
            i += 1;
        }
        all_failed
    }

    /// The pair that was answered, with the sockets of the ones that lost
    /// closed.
    fn winner(&mut self) -> (fastest: Option<Fastest>)
        ensures
            old(self)@.is_fastest(fastest),
            final(self)@ == old(self)@.closed(),
            final(self).sockets@ == match fastest {
                Some(won) => if won.socket < old(self).sockets.len() {
                    seq![old(self).sockets@[won.socket as int]]
                } else {
                    seq![]
                },
                None => seq![],
            },
    {
        let ghost before = self@;
        let ghost open = self.sockets@;
        let mut i: usize = 0;
        while i < self.items.len() && self.items[i].state() != SpeedTestState::Suc
            invariant
                i <= self.items@.len(),
                self@ == before,
                self.sockets@ == open,
                open == old(self).sockets@,
                before.first_answered(0) == before.first_answered(i as int),
            decreases self.items@.len() - i,
        {
            assert(before.items[i as int] == self.items@[i as int]@);
            i += 1;
        }
        if i < self.items.len() {
            assert(before.items[i as int] == self.items@[i as int]@);
        }
        let mut sockets: Vec<Socket<S>> = Vec::new();
        std::mem::swap(&mut sockets, &mut self.sockets);
        if i < self.items.len() && i < sockets.len() {
            let won = sockets.remove(i);
            self.sockets.push(won);
            assert(self.sockets@ =~= seq![open[i as int]]);
            assert(self@.sockets =~= seq![before.sockets[i as int]]);
        } else {
            assert(self@.sockets =~= seq![]);
        }
        if i < self.items.len() {
            Some(
                Fastest {
                    pair: self.items[i].pair().copy(),
                    connect_ms: self.items[i].connect_ms(),
                    socket: i,
                },
            )
        } else {
            None
        }
    }

    /// One select and what it comes to; `true` is the last one.
    fn run_round(&mut self, fixed: Option<u64>) -> (r: (bool, Ghost<RoundAnswer>))
        requires
            old(self)@.wf(),
        ensures
            final(self)@.wf(),
            final(self)@ == old(self)@.round_run(r.1@, fixed),
            r.0 == old(self)@.ends(r.1@, fixed),
            fixed matches Some(now) ==> r.1@.now == now,
    {
        let selected = self.host.select(self.items.as_slice());
        let ghost select = select_view(selected);
        let ghost none = RoundAnswer {
            select,
            now: match fixed {
                Some(now) => now,
                None => 0,
            },
            io: seq![],
        };
        match selected {
            Ok(events) => {
                let now: u64 = match fixed {
                    Some(now) => now,
                    None => self.host.tick(),
                };
                assert(self@.items == old(self)@.items);
                let (_needs, Ghost(io)) = self.step_all(events.as_slice(), now);
                let decided = self.is_decided();
                assert(self@.wf());
                (decided, Ghost(RoundAnswer { select, now, io }))
            },
            Err(Stop::Interrupted) => {
                if self.retries < MAX_RETRIES {
                    self.retries = self.retries + 1;
                    assert(self@.items == old(self)@.items);
                    return (false, Ghost(none));
                }
                assert(self@.items == old(self)@.items);
                (true, Ghost(none))
            },
            Err(_) => {
                assert(self@.items == old(self)@.items);
                (true, Ghost(none))
            },
        }
    }

    /// The race is run until a pair was answered, every pair has failed, or the
    /// select gave up.
    fn race(&mut self, fixed: Option<u64>) -> (fastest: Option<Fastest>)
        requires
            old(self)@.wf(),
        ensures
            final(self)@.wf(),
            exists|open: RaceView, rounds: Seq<RoundAnswer>|
                {
                    &&& #[trigger] old(self)@.is_open(open)
                    &&& #[trigger] open.is_race(rounds, fixed)
                    &&& open.run(rounds, fixed).is_fastest(fastest)
                    &&& final(self)@ == open.run(rounds, fixed).closed()
                },
    {
        let ghost before = self@;
        self.open_all();
        let ghost open = self@;
        assert(before.is_open(open));
        let ghost mut rounds: Seq<RoundAnswer> = seq![];
        let mut left: u64 = MAX_ROUNDS;
        let mut over = false;
        while left > 0 && !over
            invariant
                self@.wf(),
                self@ == open.run(rounds, fixed),
                rounds.len() == MAX_ROUNDS - left,
                over ==> rounds.len() > 0 && open.run(rounds.drop_last(), fixed).ends(
                    rounds.last(),
                    fixed,
                ),
                forall|i: int|
                    0 <= i < rounds.len() - (if over {
                        1int
                    } else {
                        0int
                    }) ==> !open.run(#[trigger] rounds.take(i), fixed).ends(rounds[i], fixed),
                forall|i: int|
                    0 <= i < rounds.len() ==> (fixed matches Some(now) ==> (
                    #[trigger] rounds[i]).now == now),
            decreases left,
        {
            let ghost rounds_before = rounds;
            let (last, Ghost(answer)) = self.run_round(fixed);
            proof {
                rounds = rounds.push(answer);
                assert(rounds.drop_last() =~= rounds_before);
                assert forall|i: int|
                    0 <= i < rounds.len() - (if last {
                        1int
                    } else {
                        0int
                    }) implies !open.run(#[trigger] rounds.take(i), fixed).ends(
                    rounds[i],
                    fixed,
                ) by {
                    if i < rounds_before.len() {
                        assert(rounds.take(i) =~= rounds_before.take(i));
                    } else {
                        assert(rounds.take(i) =~= rounds_before);
                    }
                }
            }
            over = last;
            left = left - 1;
        }
        assert(open.is_race(rounds, fixed));
        self.winner()
    }

    /// The race, with one reading of the clock for every round.
    pub fn fastest_at(&mut self, now: u64) -> (fastest: Option<Fastest>)
        requires
            old(self)@.wf(),
        ensures
            final(self)@.wf(),
            exists|open: RaceView, rounds: Seq<RoundAnswer>|
                {
                    &&& #[trigger] old(self)@.is_open(open)
                    &&& #[trigger] open.is_race(rounds, Some(now))
                    &&& open.run(rounds, Some(now)).is_fastest(fastest)
                    &&& final(self)@ == open.run(rounds, Some(now)).closed()
                },
    {
        self.race(Some(now))
    }

    /// The race, reading the clock again after every select: the connect of a
    /// pair is over when its socket takes a write, which is a later reading
    /// than the one the race started with.
    pub fn fastest(&mut self) -> (fastest: Option<Fastest>)
        requires
            old(self)@.wf(),
        ensures
            final(self)@.wf(),
            exists|open: RaceView, rounds: Seq<RoundAnswer>|
                {
                    &&& #[trigger] old(self)@.is_open(open)
                    &&& #[trigger] open.is_race(rounds, None)
                    &&& open.run(rounds, None).is_fastest(fastest)
                    &&& final(self)@ == open.run(rounds, None).closed()
                },
    {
        self.race(None)
    }
}

impl RaceView {
    /// The race with its sockets opened.
    pub open spec fn is_open(self, open: RaceView) -> bool {
        if self.sockets.len() >= self.items.len() {
            open == self
        } else {
            &&& self.sockets.len() <= open.sockets.len() <= self.items.len()
            &&& open.sockets.take(self.sockets.len() as int) == self.sockets
            &&& open == self.opened(open.sockets)
        }
    }
}

/// One more thing was done.
proof fn lemma_one_word(heard: Seq<IoTold>, word: IoTold)
    ensures
        heard + seq![word] == heard.push(word),
{
    assert(heard + seq![word] =~= heard.push(word));
}

/// What the sockets that were opened first are does not depend on the last one.
proof fn lemma_open_words(
    race: RaceView,
    some: Seq<SocketView>,
    more: Seq<SocketView>,
    from: int,
    to: int,
)
    requires
        to <= some.len() <= more.len(),
        forall|i: int| 0 <= i < to ==> some[i] == more[i],
        0 <= from,
    ensures
        race.open_words(some, from, to) == race.open_words(more, from, to),
    decreases to - from,
{
    if to > from {
        lemma_open_words(race, some, more, from, to - 1);
    }
}

/// A pair that is done is left alone, whatever happens on its socket.
pub proof fn law_a_pair_that_is_done_is_left_alone(
    item: ItemView,
    event: SocketEvent,
    now: u64,
    has_socket: bool,
    io: IoAnswer,
)
    requires
        item.state.ended(),
    ensures
        item.stepped(event, now, has_socket, io) == (item, Need::Nothing),
        item.step_words(event, now, io).len() == 0,
        item.watched() == Watch::Nothing,
{
}

/// The answer to the noop is what makes a pair win, however the bytes before it
/// were split: what came in is the whole answer once the last of it is there.
pub proof fn law_the_answer_to_the_noop_wins(item: ItemView, last: Seq<u8>, seq: u32)
    requires
        last.len() > 0,
        item.response + last == packed_bytes(item.client_version, NOOP_CMDID, seq, seq![]),
    ensures
        item.received(last).0.state == SpeedTestState::Suc,
        item.received(last).1 == Need::Nothing,
{
    law_what_packs_unpacks(item.client_version, NOOP_CMDID, seq, seq![], seq![]);
    let packed = packed_bytes(item.client_version, NOOP_CMDID, seq, seq![]);
    assert(packed + Seq::<u8>::empty() =~= packed);
}

/// An out-of-band package is not an answer: it is thrown away, and the whole
/// noop goes out again.
pub proof fn law_an_out_of_band_package_starts_the_noop_over(
    item: ItemView,
    last: Seq<u8>,
    seq: u32,
    body: Seq<u8>,
)
    requires
        last.len() > 0,
        HEADER_LEN + body.len() <= MAX_PACKAGE_LEN,
        item.response + last == packed_bytes(item.client_version, OUT_OF_BAND_CMDID, seq, body),
    ensures
        item.received(last).1 == Need::Write,
        item.received(last).0.pending() == item.request,
        item.received(last).0.response.len() == 0,
{
    law_what_packs_unpacks(item.client_version, OUT_OF_BAND_CMDID, seq, body, seq![]);
    let packed = packed_bytes(item.client_version, OUT_OF_BAND_CMDID, seq, body);
    assert(packed + Seq::<u8>::empty() =~= packed);
    assert(item.received(last).0.pending() =~= item.request);
}


/// A candidate after the first `n` pieces came in.
pub open spec fn fed(item: ItemView, pieces: Seq<Seq<u8>>, n: int) -> ItemView
    decreases n,
{
    if n <= 0 {
        item
    } else {
        fed(item, pieces, n - 1).received(pieces[n - 1]).0
    }
}

/// The first `n` pieces in one.
pub open spec fn joined(pieces: Seq<Seq<u8>>, n: int) -> Seq<u8>
    decreases n,
{
    if n <= 0 {
        seq![]
    } else {
        joined(pieces, n - 1) + pieces[n - 1]
    }
}

/// More pieces are more bytes.
proof fn lemma_joined(pieces: Seq<Seq<u8>>, k: int, n: int)
    requires
        0 <= k <= n <= pieces.len(),
        forall|i: int| 0 <= i < pieces.len() ==> (#[trigger] pieces[i]).len() > 0,
    ensures
        joined(pieces, k) == joined(pieces, n).take(joined(pieces, k).len() as int),
        joined(pieces, k).len() <= joined(pieces, n).len(),
        k < n ==> joined(pieces, k).len() < joined(pieces, n).len(),
    decreases n,
{
    if k < n {
        lemma_joined(pieces, k, n - 1);
        let len = joined(pieces, k).len() as int;
        assert(joined(pieces, n).take(len) =~= joined(pieces, n - 1).take(len));
    } else {
        assert(joined(pieces, n).take(joined(pieces, n).len() as int) =~= joined(pieces, n));
    }
}

/// An answer that comes in pieces ends as one that comes whole: every piece but
/// the last asks for more, the last one wins, and a socket that gives nothing in
/// between is a fail.
pub proof fn law_an_answer_may_come_in_pieces(
    item: ItemView,
    seq: u32,
    pieces: Seq<Seq<u8>>,
    k: int,
)
    requires
        item.response.len() == 0,
        pieces.len() > 0,
        forall|i: int| 0 <= i < pieces.len() ==> (#[trigger] pieces[i]).len() > 0,
        joined(pieces, pieces.len() as int) == packed_bytes(
            item.client_version,
            NOOP_CMDID,
            seq,
            seq![],
        ),
        0 <= k < pieces.len(),
    ensures
        ({
            let so_far = fed(item, pieces, k);
            let (next, need) = so_far.received(pieces[k]);
            let whole = item.received(joined(pieces, pieces.len() as int));
            &&& k < pieces.len() - 1 ==> next.state == SpeedTestState::Resp && need == Need::Read
            &&& k == pieces.len() - 1 ==> (next, need) == whole
            &&& whole.0.state == SpeedTestState::Suc
            &&& whole.1 == Need::Nothing
            &&& so_far.received(seq![]).0.state == SpeedTestState::Fail
            &&& so_far.received(seq![]).1 == Need::Nothing
        }),
{
    let n = pieces.len() as int;
    let all = joined(pieces, n);
    lemma_fed(item, seq, pieces, k);
    lemma_joined(pieces, k + 1, n);
    lemma_joined(pieces, 0, n);
    assert(item.response + all =~= all);
    law_the_answer_to_the_noop_wins(item, all, seq);
    let so_far = fed(item, pieces, k);
    assert(so_far.response + pieces[k] =~= joined(pieces, k + 1));
    if k < n - 1 {
        law_a_package_that_is_not_whole_asks_for_more(
            item.client_version,
            NOOP_CMDID,
            seq,
            seq![],
            joined(pieces, k + 1).len() as int,
        );
    }
}

/// A candidate that was fed some of the answer holds those bytes, and is
/// otherwise what it was.
proof fn lemma_fed(item: ItemView, seq: u32, pieces: Seq<Seq<u8>>, k: int)
    requires
        item.response.len() == 0,
        forall|i: int| 0 <= i < pieces.len() ==> (#[trigger] pieces[i]).len() > 0,
        joined(pieces, pieces.len() as int) == packed_bytes(
            item.client_version,
            NOOP_CMDID,
            seq,
            seq![],
        ),
        0 <= k < pieces.len(),
    ensures
        fed(item, pieces, k) == (ItemView {
            response: joined(pieces, k),
            state: fed(item, pieces, k).state,
            ..item
        }),
    decreases k,
{
    if k > 0 {
        lemma_fed(item, seq, pieces, k - 1);
        lemma_joined(pieces, k, pieces.len() as int);
        law_a_package_that_is_not_whole_asks_for_more(
            item.client_version,
            NOOP_CMDID,
            seq,
            seq![],
            joined(pieces, k).len() as int,
        );
        let before = fed(item, pieces, k - 1);
        assert(before.response + pieces[k - 1] =~= joined(pieces, k));
    } else {
        assert(item.response =~= joined(pieces, 0));
    }
}

} // verus!
