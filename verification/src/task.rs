//! What the app asks the pipeline for: one request, and how it may go out.
use vstd::prelude::*;

verus! {

/// One request of the app.
#[derive(Debug, Clone, PartialEq, Eq)]
pub struct Task {
    /// What the task is known by; see [`Task::INVALID_TASK_ID`].
    pub taskid: u32,
    /// Business identifier on a long link; `0` is a task that has none.
    pub cmdid: u32,
    /// The connect the task is pinned to, by its start reading; `0` is none.
    pub channel_id: u64,
    /// Which links the task may use: bits of the `CHANNEL_*`.
    pub channel_select: i32,
    /// The long link the task names.
    pub channel_name: String,
    /// One of the `CHANNEL_*_STRATEGY`.
    pub channel_strategy: i32,
    /// Business identifier on a short link; empty is a task that has none.
    pub cgi: String,
    /// A task that is over the moment it went out.
    pub send_only: bool,
    /// A task that waits until its user is authenticated.
    pub need_authed: bool,
    /// A task the flow limit applies to.
    pub limit_flow: bool,
    /// A task the frequency limit applies to.
    pub limit_frequency: bool,
    /// A task that is failed at once when there is no network.
    pub network_status_sensitive: bool,
    /// The smaller, the sooner.
    pub priority: i32,
    /// How many tries the task has after the first one; negative asks for the
    /// default.
    pub retry_count: i32,
    /// How long the server needs, in milliseconds; not positive is unknown.
    pub server_process_cost: i32,
    /// How long the task may take in all, in milliseconds; negative is unset.
    pub total_timeout: i32,
    /// The account the task was started for.
    pub user_id: String,
    /// What the task is reported under.
    pub client_sequence_id: u16,
    /// Hosts of the short link.
    pub shortlink_host_list: Vec<String>,
    /// Hosts a retry on the short link goes to.
    pub shortlink_fallback_hostlist: Vec<String>,
    /// Hosts of the long link.
    pub longlink_host_list: Vec<String>,
    /// Hosts of a minor long link; the first names it.
    pub minorlong_host_list: Vec<String>,
}

impl Task {
    /// No task: the server pushing, or an error of a whole link.
    pub const INVALID_TASK_ID: u32 = 0;

    /// The task a heartbeat goes out as.
    pub const NOOP_TASK_ID: u32 = 0xffff_ffff;

    /// The task the identify check goes out as.
    pub const LONG_LINK_IDENTIFY_CHECKER_TASK_ID: u32 = 0xffff_fffe;

    /// The task the signalling keeper sends with.
    pub const SIGNALLING_KEEPER_TASK_ID: u32 = 0xffff_fffd;

    /// What a minor long link marks its identify check's cmdid with.
    pub const MINOR_LONGLINK_CMD_MASK: u32 = 0xff00_0000;

    pub const CHANNEL_SHORT: i32 = 0x1;

    pub const CHANNEL_LONG: i32 = 0x2;

    pub const CHANNEL_BOTH: i32 = 0x3;

    pub const CHANNEL_MINOR_LONG: i32 = 0x4;

    pub const CHANNEL_NORMAL: i32 = 0x5;

    pub const CHANNEL_ALL: i32 = 0x7;

    pub const CHANNEL_NORMAL_STRATEGY: i32 = 0;

    pub const CHANNEL_FAST_STRATEGY: i32 = 1;

    pub const PRIORITY_NORMAL: i32 = 3;

    pub const TRANSPORT_PROTOCOL_TCP: i32 = 1;

    /// A task nothing was configured on: it is authed, limited and retried by
    /// default, and may use no link yet.
    pub fn new(taskid: u32, cmdid: u32) -> (task: Self)
        ensures
            task.taskid == taskid,
            task.cmdid == cmdid,
            task.is_plain(),
    {
        Task {
            taskid,
            cmdid,
            channel_id: 0,
            channel_select: 0,
            channel_name: String::new(),
            channel_strategy: Task::CHANNEL_NORMAL_STRATEGY,
            cgi: String::new(),
            send_only: false,
            need_authed: true,
            limit_flow: true,
            limit_frequency: true,
            network_status_sensitive: false,
            priority: Task::PRIORITY_NORMAL,
            retry_count: -1,
            server_process_cost: -1,
            total_timeout: -1,
            user_id: String::new(),
            client_sequence_id: 0,
            shortlink_host_list: Vec::new(),
            shortlink_fallback_hostlist: Vec::new(),
            longlink_host_list: Vec::new(),
            minorlong_host_list: Vec::new(),
        }
    }

    /// Everything but the two identifiers is what [`Task::new`] hands out.
    pub open spec fn is_plain(&self) -> bool {
        &&& self.channel_id == 0
        &&& self.channel_select == 0
        &&& self.channel_name@.len() == 0
        &&& self.channel_strategy == Task::CHANNEL_NORMAL_STRATEGY
        &&& self.cgi@.len() == 0
        &&& !self.send_only
        &&& self.need_authed
        &&& self.limit_flow
        &&& self.limit_frequency
        &&& !self.network_status_sensitive
        &&& self.priority == Task::PRIORITY_NORMAL
        &&& self.retry_count == -1
        &&& self.server_process_cost == -1
        &&& self.total_timeout == -1
        &&& self.user_id@.len() == 0
        &&& self.client_sequence_id == 0
        &&& self.shortlink_host_list@.len() == 0
        &&& self.shortlink_fallback_hostlist@.len() == 0
        &&& self.longlink_host_list@.len() == 0
        &&& self.minorlong_host_list@.len() == 0
    }

    /// The same task once more.
    pub fn copy(&self) -> (task: Self)
        ensures
            task.same(self),
    {
        Task {
            taskid: self.taskid,
            cmdid: self.cmdid,
            channel_id: self.channel_id,
            channel_select: self.channel_select,
            channel_name: self.channel_name.clone(),
            channel_strategy: self.channel_strategy,
            cgi: self.cgi.clone(),
            send_only: self.send_only,
            need_authed: self.need_authed,
            limit_flow: self.limit_flow,
            limit_frequency: self.limit_frequency,
            network_status_sensitive: self.network_status_sensitive,
            priority: self.priority,
            retry_count: self.retry_count,
            server_process_cost: self.server_process_cost,
            total_timeout: self.total_timeout,
            user_id: self.user_id.clone(),
            client_sequence_id: self.client_sequence_id,
            shortlink_host_list: copy_texts(&self.shortlink_host_list),
            shortlink_fallback_hostlist: copy_texts(&self.shortlink_fallback_hostlist),
            longlink_host_list: copy_texts(&self.longlink_host_list),
            minorlong_host_list: copy_texts(&self.minorlong_host_list),
        }
    }

    /// The two tasks say the same.
    pub open spec fn same(&self, other: &Task) -> bool {
        &&& self.taskid == other.taskid
        &&& self.cmdid == other.cmdid
        &&& self.channel_id == other.channel_id
        &&& self.channel_select == other.channel_select
        &&& self.channel_name@ == other.channel_name@
        &&& self.channel_strategy == other.channel_strategy
        &&& self.cgi@ == other.cgi@
        &&& self.send_only == other.send_only
        &&& self.need_authed == other.need_authed
        &&& self.limit_flow == other.limit_flow
        &&& self.limit_frequency == other.limit_frequency
        &&& self.network_status_sensitive == other.network_status_sensitive
        &&& self.priority == other.priority
        &&& self.retry_count == other.retry_count
        &&& self.server_process_cost == other.server_process_cost
        &&& self.total_timeout == other.total_timeout
        &&& self.user_id@ == other.user_id@
        &&& self.client_sequence_id == other.client_sequence_id
        &&& self.shortlink_host_list@ == other.shortlink_host_list@
        &&& self.shortlink_fallback_hostlist@ == other.shortlink_fallback_hostlist@
        &&& self.longlink_host_list@ == other.longlink_host_list@
        &&& self.minorlong_host_list@ == other.minorlong_host_list@
    }

    /// What [`Task::new`] hands out for those two identifiers.
    pub open spec fn is_plain_of(&self, taskid: u32, cmdid: u32) -> bool {
        self.taskid == taskid && self.cmdid == cmdid && self.is_plain()
    }
}

/// The contents of a list of strings.
pub open spec fn texts(list: Seq<String>) -> Seq<Seq<char>> {
    list.map_values(|s: String| s@)
}

/// A copy of a list of strings.
pub fn copy_texts(list: &Vec<String>) -> (copy: Vec<String>)
    ensures
        copy@ == list@,
{
    let mut copy: Vec<String> = Vec::new();
    let mut i: usize = 0;
    while i < list.len()
        invariant
            i <= list.len(),
            copy@ == list@.subrange(0, i as int),
        decreases list.len() - i,
    {
        copy.push(list[i].clone());
        i += 1;
        assert(list@.subrange(0, i as int) == list@.subrange(0, i - 1).push(list@[i - 1]));
    }
    assert(list@.subrange(0, i as int) == list@);
    copy
}

/// Whether two strings hold the same text.
pub fn same_text(left: &str, right: &str) -> (same: bool)
    ensures
        same == (left@ == right@),
{
    left.to_owned() == right.to_owned()
}

/// Whether a list of strings holds `text`.
pub fn holds_text(list: &Vec<String>, text: &str) -> (found: bool)
    ensures
        found == texts(list@).contains(text@),
{
    let wanted = text.to_owned();
    let mut i: usize = 0;
    while i < list.len()
        invariant
            i <= list.len(),
            wanted@ == text@,
            forall|j: int| 0 <= j < i ==> (#[trigger] list@[j])@ != text@,
        decreases list.len() - i,
    {
        if list[i] == wanted {
            assert(texts(list@)[i as int] == text@);
            return true;
        }
        i += 1;
    }
    assert forall|j: int| 0 <= j < texts(list@).len() implies texts(list@)[j] != text@ by {
        assert(texts(list@)[j] == list@[j]@);
    }
    false
}

/// `part` stands somewhere in `text`.
pub open spec fn has_part(text: Seq<char>, part: Seq<char>) -> bool {
    exists|k: int|
        0 <= k && k + part.len() <= text.len() && #[trigger] text.subrange(k, k + part.len())
            == part
}

/// Whether `part` stands at `at` in `text`.
fn stands_at(text: &str, part: &str, at: usize) -> (stands: bool)
    requires
        at + part@.len() <= text@.len() <= usize::MAX,
    ensures
        stands == (text@.subrange(at as int, at + part@.len()) == part@),
{
    let len: usize = part.unicode_len();
    let mut i: usize = 0;
    while i < len
        invariant
            i <= len == part@.len(),
            at + part@.len() <= text@.len() <= usize::MAX,
            forall|j: int| 0 <= j < i ==> text@[at + j] == #[trigger] part@[j],
        decreases len - i,
    {
        if text.get_char(at + i) != part.get_char(i) {
            assert(text@.subrange(at as int, at + part@.len())[i as int] != part@[i as int]);
            return false;
        }
        i += 1;
    }
    assert(text@.subrange(at as int, at + part@.len()) =~= part@);
    true
}

/// Whether `part` stands somewhere in `text`.
pub fn contains_text(text: &str, part: &str) -> (found: bool)
    ensures
        found == has_part(text@, part@),
{
    let len: usize = text.unicode_len();
    let part_len: usize = part.unicode_len();
    if part_len > len {
        return false;
    }
    if part_len == 0 {
        assert(text@.subrange(0, 0int + part@.len()) =~= part@);
        return true;
    }
    let mut at: usize = 0;
    while at <= len - part_len
        invariant
            len == text@.len(),
            0 < part_len == part@.len() <= len,
            at <= len - part_len + 1,
            forall|k: int|
                0 <= k < at && k + part@.len() <= text@.len() ==> #[trigger] text@.subrange(
                    k,
                    k + part@.len(),
                ) != part@,
        decreases len - part_len + 1 - at,
    {
        if stands_at(text, part, at) {
            return true;
        }
        at += 1;
    }
    false
}

} // verus!
