//! What the long-link queue asks of the app and of the links, and what it
//! tells them.
//!
//! The queue makes no promise about the answers and asks for none: everything
//! it does is stated for whatever came back, over what the host heard, in order
//! (see [`crate::queue_spec::QueueView::told`]).
use vstd::prelude::*;
use crate::dynamic_timeout::{DynamicTimeoutStatus, NetworkKind};
use crate::long_link::DisconnectInternalCode;
use crate::net_route::Mark;
use crate::task::Task;
use crate::task_profile::{ConnectProfile, ConnectView, ErrCmdType, RunId, TaskFailHandleType};

verus! {

/// What the queue leaves as it is, whatever it asks of a host.
pub struct Fixed {
    /// What the host did is what it heard.
    pub sound: bool,
    /// The host keeps tasks that failed for a long link that is used.
    pub use_long_link: bool,
    /// Where the host stood when what it did was last counted.
    pub mark: Mark,
}

/// The app and the links, as the long-link queue sees them.
///
/// A host may answer what it likes; each call is one more thing that it heard.
pub trait QueueHost: Sized {
    /// Everything the host was told and asked so far, in order. Each host says
    /// what that is of it.
    open spec fn heard(&self) -> Seq<Told> {
        Seq::empty()
    }

    /// What no call changes. Each host says what that is of it.
    open spec fn fixed(&self) -> Fixed {
        Fixed { sound: true, use_long_link: true, mark: Mark::none() }
    }

    /// A task is over.
    fn ended(
        &mut self,
        err_type: ErrCmdType,
        err_code: i32,
        handle: TaskFailHandleType,
        task: &Task,
        cost: u32,
        profile: &ConnectProfile,
    )
        ensures
            final(self).fixed() == old(self).fixed(),
            final(self).heard() == old(self).heard().push(
                Told::Ended { err_type, err_code, handle, task: *task, cost, profile: profile@ },
            ),
    ;

    /// An error of a whole channel, and the pair it happened on; no error is
    /// an answer that came back.
    fn network_err(&mut self, name: &str, err_type: ErrCmdType, err_code: i32, ip: &str, port: u16)
        ensures
            final(self).fixed() == old(self).fixed(),
            final(self).heard() == old(self).heard().push(
                Told::NetworkErr { name: name@, err_type, err_code, ip: ip@, port },
            ),
    ;

    /// Every task of a user has to be looked at again; the app answers by
    /// asking the queue to.
    fn retry_all_tasks(
        &mut self,
        err_type: ErrCmdType,
        err_code: i32,
        handle: TaskFailHandleType,
        src_taskid: u32,
        user_id: &str,
    )
        ensures
            final(self).fixed() == old(self).fixed(),
            final(self).heard() == old(self).heard().push(
                Told::RetryAllTasks { err_type, err_code, handle, src_taskid, user_id: user_id@ },
            ),
    ;

    /// The server pushed.
    fn push(&mut self, name: &str, cmdid: u32, taskid: u32, body: &[u8])
        ensures
            final(self).fixed() == old(self).fixed(),
            final(self).heard() == old(self).heard().push(
                Told::Push { name: name@, cmdid, taskid, body: body@ },
            ),
    ;

    /// The link is told a task is not waited for any more.
    fn stop(&mut self, name: &str, taskid: u32)
        ensures
            final(self).fixed() == old(self).fixed(),
            final(self).heard() == old(self).heard().push(Told::Stop { name: name@, taskid }),
    ;

    /// The link is taken down, and told why.
    fn disconnect(&mut self, name: &str, code: DisconnectInternalCode)
        ensures
            final(self).fixed() == old(self).fixed(),
            final(self).heard() == old(self).heard().push(Told::Disconnect { name: name@, code }),
    ;

    /// The link is taken apart and made again.
    fn reset_channel(&mut self, name: &str)
        ensures
            final(self).fixed() == old(self).fixed(),
            final(self).heard() == old(self).heard().push(Told::ResetChannel { name: name@ }),
    ;

    /// An answer is kept, to be given again to the next task of the cgi.
    fn keep_answer(&mut self, now: u64, cgi: &str, body: &[u8])
        ensures
            final(self).fixed() == old(self).fixed(),
            final(self).heard() == old(self).heard().push(
                Told::KeepAnswer { now, cgi: cgi@, body: body@ },
            ),
    ;

    /// The answer that was kept for a cgi, if it is still good.
    fn kept_answer(&mut self, now: u64, cgi: &str) -> (answer: Option<Vec<u8>>)
        ensures
            final(self).fixed() == old(self).fixed(),
            final(self).heard() == old(self).heard().push(
                Told::KeptAnswer { now, cgi: cgi@, answer: kept(answer) },
            ),
    ;

    /// Whether an answer with this code is one to keep.
    fn should_keep(&mut self, err_code: i32) -> (answer: bool)
        ensures
            final(self).fixed() == old(self).fixed(),
            final(self).heard() == old(self).heard().push(Told::ShouldKeep { err_code, answer }),
    ;

    /// Which network it is.
    fn network(&mut self) -> (answer: NetworkKind)
        ensures
            final(self).fixed() == old(self).fixed(),
            final(self).heard() == old(self).heard().push(Told::Network { answer }),
    ;

    /// The connect a channel is on.
    fn channel_profile(&mut self, name: &str) -> (answer: ConnectProfile)
        ensures
            final(self).fixed() == old(self).fixed(),
            final(self).heard() == old(self).heard().push(
                Told::ChannelProfile { name: name@, answer: answer@ },
            ),
    ;

    /// How long a task may take in all.
    fn task_timeout(&mut self, task: &Task) -> (answer: u64)
        ensures
            final(self).fixed() == old(self).fixed(),
            final(self).heard() == old(self).heard().push(
                Told::TaskTimeout { task: *task, answer },
            ),
    ;

    /// How long the first package of an answer may take.
    fn first_pkg_timeout(
        &mut self,
        server_cost: i64,
        send_len: usize,
        sent_count: i32,
        status: DynamicTimeoutStatus,
        mobile: bool,
    ) -> (answer: u64)
        ensures
            final(self).fixed() == old(self).fixed(),
            final(self).heard() == old(self).heard().push(
                Told::FirstPkgTimeout { server_cost, send_len, sent_count, status, mobile, answer },
            ),
    ;

    /// How long the whole answer may take.
    fn read_write_timeout(&mut self, first_pkg: u64, mobile: bool) -> (answer: u64)
        ensures
            final(self).fixed() == old(self).fixed(),
            final(self).heard() == old(self).heard().push(
                Told::ReadWriteTimeout { first_pkg, mobile, answer },
            ),
    ;

    /// Whether the user is authenticated on the host.
    fn authed(&mut self, host: &str, user_id: &str) -> (answer: bool)
        ensures
            final(self).fixed() == old(self).fixed(),
            final(self).heard() == old(self).heard().push(
                Told::Authed { host: host@, user_id: user_id@, answer },
            ),
    ;

    /// A new id to report a task under.
    fn sequence_id(&mut self) -> (answer: u16)
        ensures
            final(self).fixed() == old(self).fixed(),
            final(self).heard() == old(self).heard().push(Told::SequenceId { answer }),
    ;

    /// The request of a task, or the code it could not be made with.
    fn encode(&mut self, task: &Task) -> (answer: Result<Vec<u8>, i32>)
        ensures
            final(self).fixed() == old(self).fixed(),
            final(self).heard() == old(self).heard().push(
                Told::Encode { task: *task, answer: request(answer) },
            ),
    ;

    /// What an answer is, and what is to be done about it.
    fn decode(&mut self, task: &Task, body: &[u8]) -> (answer: (i32, TaskFailHandleType))
        ensures
            final(self).fixed() == old(self).fixed(),
            final(self).heard() == old(self).heard().push(
                Told::Decode { task: *task, body: body@, answer },
            ),
    ;

    /// Whether the request may go out at all.
    fn allowed(&mut self, task: &Task, body: &[u8]) -> (answer: bool)
        ensures
            final(self).fixed() == old(self).fixed(),
            final(self).heard() == old(self).heard().push(
                Told::Allowed { task: *task, body: body@, answer },
            ),
    ;

    /// Whether the link is up; one that is not is being made.
    fn make_sure_connected(&mut self, name: &str) -> (answer: bool)
        ensures
            final(self).fixed() == old(self).fixed(),
            final(self).heard() == old(self).heard().push(
                Told::MakeSureConnected { name: name@, answer },
            ),
    ;

    /// The request goes out on the link, and the run it is out on is named;
    /// `None` is a write that did not happen.
    fn send(&mut self, name: &str, task: &Task, body: &[u8]) -> (answer: Option<RunId>)
        ensures
            final(self).fixed() == old(self).fixed(),
            final(self).heard() == old(self).heard().push(
                Told::Send { name: name@, task: *task, body: body@, answer },
            ),
    ;

    /// Whether the channel has to be looked at again now that the network is
    /// another one.
    fn network_change(&mut self, name: &str) -> (answer: bool)
        ensures
            final(self).fixed() == old(self).fixed(),
            final(self).heard() == old(self).heard().push(
                Told::NetworkChange { name: name@, answer },
            ),
    ;
}

/// One thing the queue told its host, or one thing it asked and the answer.
#[allow(inconsistent_fields)]
pub enum Told {
    Ended {
        err_type: ErrCmdType,
        err_code: i32,
        handle: TaskFailHandleType,
        task: Task,
        cost: u32,
        profile: ConnectView,
    },
    NetworkErr { name: Seq<char>, err_type: ErrCmdType, err_code: i32, ip: Seq<char>, port: u16 },
    RetryAllTasks {
        err_type: ErrCmdType,
        err_code: i32,
        handle: TaskFailHandleType,
        src_taskid: u32,
        user_id: Seq<char>,
    },
    Push { name: Seq<char>, cmdid: u32, taskid: u32, body: Seq<u8> },
    Stop { name: Seq<char>, taskid: u32 },
    Disconnect { name: Seq<char>, code: DisconnectInternalCode },
    ResetChannel { name: Seq<char> },
    KeepAnswer { now: u64, cgi: Seq<char>, body: Seq<u8> },
    KeptAnswer { now: u64, cgi: Seq<char>, answer: Option<Seq<u8>> },
    ShouldKeep { err_code: i32, answer: bool },
    Network { answer: NetworkKind },
    ChannelProfile { name: Seq<char>, answer: ConnectView },
    TaskTimeout { task: Task, answer: u64 },
    FirstPkgTimeout {
        server_cost: i64,
        send_len: usize,
        sent_count: i32,
        status: DynamicTimeoutStatus,
        mobile: bool,
        answer: u64,
    },
    ReadWriteTimeout { first_pkg: u64, mobile: bool, answer: u64 },
    Authed { host: Seq<char>, user_id: Seq<char>, answer: bool },
    SequenceId { answer: u16 },
    Encode { task: Task, answer: Result<Seq<u8>, i32> },
    Decode { task: Task, body: Seq<u8>, answer: (i32, TaskFailHandleType) },
    Allowed { task: Task, body: Seq<u8>, answer: bool },
    MakeSureConnected { name: Seq<char>, answer: bool },
    Send { name: Seq<char>, task: Task, body: Seq<u8>, answer: Option<RunId> },
    NetworkChange { name: Seq<char>, answer: bool },
}

/// What a request came to.
pub open spec fn request(made: Result<Vec<u8>, i32>) -> Result<Seq<u8>, i32> {
    match made {
        Ok(body) => Ok(body@),
        Err(code) => Err(code),
    }
}

/// What was kept.
pub open spec fn kept(answer: Option<Vec<u8>>) -> Option<Seq<u8>> {
    match answer {
        Some(body) => Some(body@),
        None => None,
    }
}

} // verus!
