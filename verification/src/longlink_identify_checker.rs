//! The check the long link makes the app answer before it trusts the
//! connection.
//!
//! The app is asked for a buffer, a hash and a cmdid; its answer is *when* to
//! send them, not whether. `CheckNow` sends the buffer at once, `CheckNext`
//! asks again on the next connect and `CheckNever` stops asking. The app's
//! verdict on the answer the server sent back is what marks the connection
//! checked, and only a `true` does.
use vstd::prelude::*;
use crate::longlink::{LongLinkEncoder, PackerEncoderVersion};
use crate::task::Task;

verus! {

/// When the identify buffer goes out.
#[derive(Debug, Clone, Copy, PartialEq, Eq, Structural)]
pub enum IdentifyMode {
    /// Send it now.
    CheckNow,
    /// Ask again on the next connect.
    CheckNext,
    /// Stop asking.
    CheckNever,
}

/// The app's answer: what to send, what the response is judged against, the
/// cmdid to send it with, and when.
#[derive(Debug, Clone, PartialEq, Eq)]
pub struct IdentifyBuffer {
    pub mode: IdentifyMode,
    pub buffer: Vec<u8>,
    pub hash: Vec<u8>,
    pub cmdid: u32,
}

impl IdentifyBuffer {
    /// The buffer goes out now, with that cmdid.
    pub fn now(buffer: Vec<u8>, hash: Vec<u8>, cmdid: u32) -> (answer: Self)
        ensures
            answer.mode == IdentifyMode::CheckNow,
            answer.buffer == buffer,
            answer.hash == hash,
            answer.cmdid == cmdid,
    {
        IdentifyBuffer { mode: IdentifyMode::CheckNow, buffer, hash, cmdid }
    }

    /// The app is asked again on the next connect.
    pub fn next(hash: Vec<u8>) -> (answer: Self)
        ensures
            answer.mode == IdentifyMode::CheckNext,
            answer.buffer@.len() == 0,
            answer.hash == hash,
            answer.cmdid == 0,
    {
        IdentifyBuffer { mode: IdentifyMode::CheckNext, buffer: Vec::new(), hash, cmdid: 0 }
    }

    /// The app is not asked any more.
    pub fn never(hash: Vec<u8>) -> (answer: Self)
        ensures
            answer.mode == IdentifyMode::CheckNever,
            answer.buffer@.len() == 0,
            answer.hash == hash,
            answer.cmdid == 0,
    {
        IdentifyBuffer { mode: IdentifyMode::CheckNever, buffer: Vec::new(), hash, cmdid: 0 }
    }
}

/// Where the check of one link is.
#[derive(Debug, Clone)]
pub struct LongLinkIdentifyChecker {
    pub channel_id: String,
    /// The cmdid is handed to the app with [`Task::MINOR_LONGLINK_CMD_MASK`]
    /// already in it.
    pub is_minor_long: bool,
    pub has_checked: bool,
    /// The cmdid of the buffer that went out.
    pub cmd_id: u32,
    /// What the response has to match.
    pub taskid: u32,
    /// What the app handed out and the response is judged against.
    pub hash_code: Vec<u8>,
    pub encoder: LongLinkEncoder,
}

/// The contents of a [`LongLinkIdentifyChecker`].
pub struct CheckerView {
    pub channel_id: Seq<char>,
    pub is_minor_long: bool,
    pub has_checked: bool,
    pub cmd_id: u32,
    pub taskid: u32,
    pub hash_code: Seq<u8>,
    pub encoder: LongLinkEncoder,
}

impl View for LongLinkIdentifyChecker {
    type V = CheckerView;

    open spec fn view(&self) -> CheckerView {
        CheckerView {
            channel_id: self.channel_id@,
            is_minor_long: self.is_minor_long,
            has_checked: self.has_checked,
            cmd_id: self.cmd_id,
            taskid: self.taskid,
            hash_code: self.hash_code@,
            encoder: self.encoder,
        }
    }
}

impl CheckerView {
    /// A check that has not been asked for.
    pub open spec fn fresh(channel_id: Seq<char>, is_minor_long: bool) -> CheckerView {
        CheckerView {
            channel_id,
            is_minor_long,
            has_checked: false,
            cmd_id: 0,
            taskid: 0,
            hash_code: Seq::empty(),
            encoder: LongLinkEncoder { packer_encoder_version: PackerEncoderVersion::Old },
        }
    }

    /// The cmdid the app is handed; nothing is asked of it once the connection
    /// is checked.
    pub open spec fn question(self) -> Option<u32> {
        if self.has_checked {
            None
        } else if self.is_minor_long {
            Some(Task::MINOR_LONGLINK_CMD_MASK)
        } else {
            Some(0)
        }
    }

    /// What the answer of the app makes of the check.
    pub open spec fn answered(
        self,
        mode: IdentifyMode,
        hash: Seq<u8>,
        cmdid: u32,
    ) -> CheckerView {
        if self.has_checked {
            self
        } else {
            CheckerView {
                hash_code: hash,
                has_checked: mode == IdentifyMode::CheckNever,
                cmd_id: if mode == IdentifyMode::CheckNow { cmdid } else { self.cmd_id },
                ..self
            }
        }
    }

    /// The buffer goes out.
    pub open spec fn goes_out(self, mode: IdentifyMode) -> bool {
        !self.has_checked && mode == IdentifyMode::CheckNow
    }

    /// What the verdict of the app makes of the check.
    pub open spec fn judged(self, accepted: bool) -> CheckerView {
        CheckerView { taskid: 0, has_checked: self.has_checked || accepted, ..self }
    }

    /// A new connection asks again.
    pub open spec fn restarted(self) -> CheckerView {
        CheckerView {
            has_checked: false,
            taskid: 0,
            cmd_id: 0,
            hash_code: Seq::empty(),
            ..self
        }
    }

    /// A package is the answer to the check that is out.
    pub open spec fn is_resp(self, taskid: u32) -> bool {
        self.taskid == taskid && self.taskid != 0
    }
}

impl Default for LongLinkIdentifyChecker {
    fn default() -> (checker: Self)
        ensures
            checker@ == CheckerView::fresh(Seq::empty(), false),
    {
        let channel_id = String::new();
        assert(channel_id@ =~= Seq::<char>::empty());
        LongLinkIdentifyChecker::new(channel_id.as_str(), false)
    }
}

impl LongLinkIdentifyChecker {
    /// A check that has not been asked for.
    pub fn new(channel_id: &str, is_minor_long: bool) -> (checker: Self)
        ensures
            checker@ == CheckerView::fresh(channel_id@, is_minor_long),
    {
        LongLinkIdentifyChecker {
            channel_id: channel_id.to_owned(),
            is_minor_long,
            has_checked: false,
            cmd_id: 0,
            taskid: 0,
            hash_code: Vec::new(),
            encoder: LongLinkEncoder::new(),
        }
    }

    /// The encoder the response is judged with.
    pub fn set_encoder(&mut self, encoder: LongLinkEncoder)
        ensures
            final(self)@ == (CheckerView { encoder, ..old(self)@ }),
    {
        self.encoder = encoder;
    }

    /// Whether the connection is checked.
    pub fn has_checked(&self) -> (checked: bool)
        ensures
            checked == self@.has_checked,
    {
        self.has_checked
    }

    /// The cmdid of the buffer that went out.
    pub fn cmd_id(&self) -> (cmdid: u32)
        ensures
            cmdid == self@.cmd_id,
    {
        self.cmd_id
    }

    /// What the response has to match.
    pub fn taskid(&self) -> (taskid: u32)
        ensures
            taskid == self@.taskid,
    {
        self.taskid
    }

    /// What the response is judged against.
    pub fn hash_code(&self) -> (hash: &[u8])
        ensures
            hash@ == self@.hash_code,
    {
        self.hash_code.as_slice()
    }

    /// The channel the check belongs to.
    pub fn channel_id(&self) -> (id: &str)
        ensures
            id@ == self@.channel_id,
    {
        self.channel_id.as_str()
    }

    /// The cmdid the app is to be asked with; `None` is a connection that is
    /// checked, and an app that is not asked.
    ///
    /// A minor long link has its mask in it **before** the app sees it: an app
    /// that answers a cmdid of its own overwrites the mask.
    pub fn question(&self) -> (cmdid: Option<u32>)
        ensures
            cmdid == self@.question(),
    {
        if self.has_checked {
            return None;
        }
        if self.is_minor_long {
            Some(Task::MINOR_LONGLINK_CMD_MASK)
        } else {
            Some(0)
        }
    }

    /// The buffer to send and the cmdid to send it with, given what the app
    /// answered.
    ///
    /// `None` unless the app said to send it now. The hash stays whatever the
    /// app said: it is what a response is judged against. A connection that is
    /// checked takes no answer.
    pub fn get_identify_buffer(&mut self, answer: IdentifyBuffer) -> (out: Option<(Vec<u8>, u32)>)
        ensures
            final(self)@ == old(self)@.answered(answer.mode, answer.hash@, answer.cmdid),
            match out {
                Some(sent) => old(self)@.goes_out(answer.mode) && sent.0 == answer.buffer && sent.1
                    == answer.cmdid,
                None => !old(self)@.goes_out(answer.mode),
            },
    {
        if self.has_checked {
            return None;
        }
        self.hash_code = answer.hash;
        match answer.mode {
            IdentifyMode::CheckNever => {
                self.has_checked = true;
                None
            },
            IdentifyMode::CheckNext => {
                self.has_checked = false;
                None
            },
            IdentifyMode::CheckNow => {
                self.cmd_id = answer.cmdid;
                Some((answer.buffer, answer.cmdid))
            },
        }
    }

    /// The task the buffer went out as.
    pub fn set_id(&mut self, taskid: u32)
        ensures
            final(self)@ == (CheckerView { taskid, ..old(self)@ }),
    {
        self.taskid = taskid;
    }

    /// Whether a package is the answer to the check that is out.
    pub fn is_identify_resp(&self, taskid: u32) -> (is: bool)
        ensures
            is == self@.is_resp(taskid),
    {
        self.encoder.identify_isresp(self.taskid, taskid)
    }

    /// The response the server sent back, and the app's verdict on it.
    ///
    /// The task is forgotten whatever the verdict, and only a `true` marks the
    /// connection checked.
    pub fn on_identify_resp(&mut self, accepted: bool) -> (checked: bool)
        ensures
            final(self)@ == old(self)@.judged(accepted),
            checked == accepted,
    {
        self.taskid = 0;
        if accepted {
            self.has_checked = true;
            return true;
        }
        false
    }

    /// A new connection asks again.
    pub fn reset(&mut self)
        ensures
            final(self)@ == old(self)@.restarted(),
    {
        self.has_checked = false;
        self.taskid = 0;
        self.cmd_id = 0;
        self.hash_code.clear();
    }
}

/// Once the app said never, nothing is asked until the next connection: the
/// check takes no answer and stays as it is.
pub proof fn law_a_checked_connection_is_not_asked_about(
    checker: CheckerView,
    mode: IdentifyMode,
    hash: Seq<u8>,
    cmdid: u32,
)
    requires
        checker.has_checked,
    ensures
        checker.question() is None,
        checker.answered(mode, hash, cmdid) == checker,
        !checker.goes_out(mode),
        checker.restarted().question() is Some,
{
}

/// An app that said never is not asked again, and nothing it says afterwards
/// goes out: only a new connection asks once more.
pub proof fn law_never_stops_the_asking(
    check: CheckerView,
    hash: Seq<u8>,
    cmdid: u32,
    mode: IdentifyMode,
    later_hash: Seq<u8>,
    later_cmdid: u32,
)
    ensures
        ({
            let after = check.answered(IdentifyMode::CheckNever, hash, cmdid);
            &&& after.question() is None
            &&& !after.goes_out(mode)
            &&& after.answered(mode, later_hash, later_cmdid) == after
            &&& after.restarted().question() is Some
        }),
{
}

/// An app that said next is asked the same again.
pub proof fn law_next_asks_again(check: CheckerView, hash: Seq<u8>, cmdid: u32)
    ensures
        ({
            let after = check.answered(IdentifyMode::CheckNext, hash, cmdid);
            &&& after.question() == check.question()
            &&& !check.goes_out(IdentifyMode::CheckNext)
        }),
{
}

/// A buffer that went out leaves the connection unchecked until the app says
/// yes to the answer; a no leaves it as it was, and either way the answer is
/// one the link waits for no longer.
pub proof fn law_only_a_yes_checks(
    check: CheckerView,
    hash: Seq<u8>,
    cmdid: u32,
    accepted: bool,
    taskid: u32,
)
    requires
        !check.has_checked,
    ensures
        ({
            let out = check.answered(IdentifyMode::CheckNow, hash, cmdid);
            &&& !out.has_checked
            &&& out.hash_code == hash
            &&& out.judged(accepted).has_checked == accepted
            &&& !out.judged(accepted).is_resp(taskid)
        }),
{
}

} // verus!
