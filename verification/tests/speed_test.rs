//! The race between the pairs of a long link.
use std::cell::RefCell;
use std::rc::Rc;

use mars_stn::ip_port::{IpPortItem, IpSourceType};
use mars_stn::longlink::{longlink_pack, LongLinkEncoder};
use mars_stn::longlink_speed_test::{
    IoTold, LongLinkSpeedTest, Need, RaceHost, RaceTold, SocketEvent, SocketIo, SpeedTestItem, SpeedTestState, Stop,
    Watch, MAX_RETRIES, OUT_OF_BAND_CMDID, TIMEOUT,
};
use mars_stn::task::Task;
use mars_stn::unwired::Unwired;

const VERSION: u32 = 200;

/// A pair to race, with the source a caller would have set.
fn pair(ip: &str, port: u16) -> IpPortItem {
    let mut pair = IpPortItem::new(ip, port);
    pair.source_type = IpSourceType::NewDns;
    pair.host = "long.example".to_string();
    pair
}

/// The answer to the noop, as the long link would have received it.
fn noop_answer() -> Vec<u8> {
    longlink_pack(
        VERSION,
        LongLinkEncoder::default().noop_cmdid(),
        Task::NOOP_TASK_ID,
        &[],
    )
}

fn item_at(now: u64) -> SpeedTestItem {
    SpeedTestItem::new_at(now, VERSION, pair("1.1.1.1", 80))
}

/// A socket that takes every write, and reads the answer of the noop when the
/// pair is up.
struct Io {
    answers: bool,
}

impl SocketIo for Io {
    fn send(&mut self, bytes: &[u8]) -> isize {
        bytes.len() as isize
    }

    fn recv(&mut self) -> Vec<u8> {
        if self.answers {
            noop_answer()
        } else {
            Vec::new()
        }
    }
}

/// A host whose select answers round by round and then stops.
struct Host {
    rounds: Vec<Vec<SocketEvent>>,
    stop: Stop,
    up: Vec<usize>,
    opened: usize,
    makes_sockets: bool,
    selects: Rc<RefCell<usize>>,
}

impl Host {
    fn new(rounds: Vec<Vec<SocketEvent>>, up: Vec<usize>) -> Self {
        Self {
            rounds,
            stop: Stop::Timeout,
            up,
            opened: 0,
            makes_sockets: true,
            selects: Rc::default(),
        }
    }

    fn stopping(stop: Stop) -> Self {
        let mut host = Self::new(Vec::new(), Vec::new());
        host.stop = stop;
        host.makes_sockets = false;
        host
    }
}

impl RaceHost<Io> for Host {
    fn open(&mut self, _ip: &str, _port: u16) -> Option<Io> {
        let index = self.opened;
        self.opened += 1;
        if self.makes_sockets {
            Some(Io {
                answers: self.up.contains(&index),
            })
        } else {
            None
        }
    }

    fn select(&mut self, _items: &[SpeedTestItem]) -> Result<Vec<SocketEvent>, Stop> {
        *self.selects.borrow_mut() += 1;
        if self.rounds.is_empty() {
            Err(self.stop)
        } else {
            Ok(self.rounds.remove(0))
        }
    }

    fn tick(&mut self) -> u64 {
        0
    }
}

#[test]
fn the_numbers_are_the_ones_the_c_plus_plus_writes_down() {
    assert_eq!(TIMEOUT, 10 * 1000);
    assert_eq!(OUT_OF_BAND_CMDID, 72);
    assert_eq!(MAX_RETRIES, 3);
}

#[test]
fn a_noop_that_is_answered_wins() {
    let mut item = item_at(1_000);
    assert_eq!(item.state(), SpeedTestState::Connecting);
    assert_eq!(item.watch(), Watch::ReadWrite);

    // the socket takes a write: the connect is over and the noop goes out
    assert_eq!(item.apply(SocketEvent::Writable, 1_500), Need::Write);
    assert_eq!(item.connect_ms(), 500);
    let whole = item.pending().len();
    assert_eq!(item.on_sent(whole as isize), Need::Read);
    assert_eq!(item.watch(), Watch::Read);

    // and the answer to it is what makes the pair win
    assert_eq!(item.on_received(&noop_answer()), Need::Nothing);
    assert_eq!(item.state(), SpeedTestState::Suc);
    assert_eq!(item.watch(), Watch::Nothing);
}

#[test]
fn a_noop_that_goes_out_in_two_writes_is_still_written_twice() {
    let mut item = item_at(0);
    item.apply(SocketEvent::Writable, 10);
    let whole = item.pending().len();
    assert_eq!(item.on_sent(whole as isize - 1), Need::Write);
    assert_eq!(item.state(), SpeedTestState::Req);
    assert_eq!(item.pending().len(), 1);
    assert_eq!(item.on_sent(1), Need::Read);
}

#[test]
fn a_write_or_a_read_that_does_not_happen_is_a_fail() {
    let mut item = item_at(0);
    item.apply(SocketEvent::Writable, 0);
    assert_eq!(item.on_sent(0), Need::Nothing);
    assert!(item.state().is_over());

    let mut item = item_at(0);
    item.apply(SocketEvent::Readable, 0);
    assert_eq!(item.on_received(&[]), Need::Nothing);
    assert_eq!(item.state(), SpeedTestState::Fail);
}

#[test]
fn an_answer_that_is_not_whole_yet_is_read_again() {
    let mut item = item_at(0);
    let answer = noop_answer();
    assert_eq!(item.on_received(&answer[..answer.len() - 1]), Need::Read);
    assert_eq!(item.state(), SpeedTestState::Resp);
    assert_eq!(item.on_received(&answer[answer.len() - 1..]), Need::Nothing);
    assert_eq!(item.state(), SpeedTestState::Suc);
}

#[test]
fn a_package_that_is_not_an_answer_to_the_noop_is_a_fail() {
    // not one of ours at all
    let mut item = item_at(0);
    assert_eq!(item.on_received(&[0u8; 32]), Need::Nothing);
    assert_eq!(item.state(), SpeedTestState::Fail);

    // one of ours, but a different command id
    let mut item = item_at(0);
    let pushed = longlink_pack(VERSION, 1, Task::NOOP_TASK_ID, &[]);
    assert_eq!(item.on_received(&pushed), Need::Nothing);
    assert_eq!(item.state(), SpeedTestState::Fail);
}

#[test]
fn an_out_of_band_package_is_not_an_answer_and_the_noop_goes_out_again() {
    let mut item = item_at(0);
    item.apply(SocketEvent::Writable, 0);
    let whole = item.pending().len();
    item.on_sent(whole as isize);

    let out_of_band = longlink_pack(VERSION, OUT_OF_BAND_CMDID, Task::NOOP_TASK_ID, &[]);
    assert_eq!(item.on_received(&out_of_band), Need::Write);
    assert_eq!(item.state(), SpeedTestState::OutOfBand);
    assert_eq!(item.pending().len(), whole, "the noop goes out again");
    assert_eq!(item.watch(), Watch::ReadWrite);
}

#[test]
fn an_exception_on_the_socket_is_a_fail_and_a_pair_that_is_done_is_left_alone() {
    let mut item = item_at(0);
    assert_eq!(item.apply(SocketEvent::Exception, 0), Need::Nothing);
    assert_eq!(item.state(), SpeedTestState::Fail);

    // and nothing moves it afterwards
    assert_eq!(item.apply(SocketEvent::Writable, 0), Need::Nothing);
    assert_eq!(item.apply(SocketEvent::Readable, 0), Need::Nothing);
    assert_eq!(item.state(), SpeedTestState::Fail);
}

#[test]
fn the_race_is_won_by_the_first_pair_that_answers() {
    let host = Host::new(
        vec![
            vec![SocketEvent::Writable, SocketEvent::Writable],
            vec![SocketEvent::Nothing, SocketEvent::Readable],
        ],
        vec![1],
    );
    let pairs = vec![pair("1.1.1.1", 80), pair("2.2.2.2", 80)];
    let mut test = LongLinkSpeedTest::new_at(host, 0, VERSION, pairs);

    let fastest = test.fastest_at(0).expect("the second pair answers");
    assert_eq!(fastest.pair.ip, "2.2.2.2");
    assert_eq!(fastest.socket, 1);
    assert_eq!(fastest.connect_ms, 0);
    assert_eq!(test.open_sockets(), 1, "the loser's socket is closed");
    assert_eq!(
        test.results()
            .into_iter()
            .map(|(_, state)| state)
            .collect::<Vec<_>>(),
        vec![SpeedTestState::Resp, SpeedTestState::Suc]
    );
}

#[test]
fn a_race_nobody_wins_hands_nothing_back() {
    let host = Host::new(
        vec![vec![SocketEvent::Writable], vec![SocketEvent::Readable]],
        Vec::new(),
    );
    let mut test = LongLinkSpeedTest::new_at(host, 0, VERSION, vec![pair("1.1.1.1", 80)]);

    assert_eq!(test.fastest_at(0), None);
    assert_eq!(test.open_sockets(), 0, "every socket is closed");
}

#[test]
fn a_select_that_gives_up_ends_the_race() {
    // a timeout on the first round
    let host = Host::stopping(Stop::Timeout);
    let mut test = LongLinkSpeedTest::new_at(host, 0, VERSION, vec![pair("1.1.1.1", 80)]);
    assert_eq!(test.fastest_at(0), None);

    // an interrupted select is sat through, but only so many times
    let host = Host::stopping(Stop::Interrupted);
    let rounds = Rc::clone(&host.selects);
    let mut test = LongLinkSpeedTest::new_at(host, 0, VERSION, vec![pair("1.1.1.1", 80)]);
    assert_eq!(test.fastest_at(0), None);
    assert_eq!(*rounds.borrow(), MAX_RETRIES + 1);

    // and an exception or a woken breaker ends it at once
    for stop in [Stop::Exception, Stop::Broken] {
        let host = Host::stopping(stop);
        let mut test = LongLinkSpeedTest::new_at(host, 0, VERSION, vec![pair("1.1.1.1", 80)]);
        assert_eq!(test.fastest_at(0), None);
    }
}

/// A race with nothing to race on.
type Unraced = LongLinkSpeedTest<Unwired<RaceTold>, Unwired<IoTold>>;

#[test]
fn without_a_host_there_is_no_race() {
    let mut test: Unraced = LongLinkSpeedTest::new_at(Unwired::new(), 0, VERSION, Vec::new());
    assert!(test.items().is_empty());
    assert_eq!(test.fastest_at(0), None);

    // candidates but no select: the race cannot be run
    let mut test: Unraced =
        LongLinkSpeedTest::new_at(Unwired::new(), 0, VERSION, vec![pair("1.1.1.1", 80)]);
    assert_eq!(test.fastest(), None);
    assert_eq!(test.round(&[SocketEvent::Writable], 0), vec![Need::Nothing]);
}

#[test]
fn an_answer_may_come_in_pieces() {
    let answer = noop_answer();
    for at in 1..answer.len() {
        let mut item = item_at(0);
        assert_eq!(item.on_received(&answer[..at]), Need::Read);
        assert_eq!(item.state(), SpeedTestState::Resp);
        assert_eq!(item.on_received(&answer[at..]), Need::Nothing);
        assert_eq!(item.state(), SpeedTestState::Suc);
    }
    let mut item = item_at(0);
    item.on_received(&answer[..3]);
    assert_eq!(item.on_received(&[]), Need::Nothing);
    assert_eq!(item.state(), SpeedTestState::Fail);
}

#[test]
fn an_answer_has_to_have_the_version_that_was_set_last() {
    let answer = longlink_pack(
        VERSION + 1,
        LongLinkEncoder::default().noop_cmdid(),
        Task::NOOP_TASK_ID,
        &[],
    );
    let mut item = item_at(0);
    let request = item.request.clone();
    item.on_received(&answer);
    assert_eq!(item.state, SpeedTestState::Fail);

    let mut item = item_at(0);
    item.set_client_version(VERSION + 1);
    assert_eq!(item.request, request, "the noop that is going out stays");
    item.on_received(&answer);
    assert_eq!(item.state, SpeedTestState::Suc);
}
