//! The terminal sessions that are open, by channel, with the process id of
//! each shell; and the start directories that new windows are waiting to
//! pick up, each handed out once.
use vstd::prelude::*;

use crate::assoc::AssocList;
use crate::auth::split_lines;
use crate::text::{chars_of, copy_range, string_of};

verus! {

/// The two maps of the store.
#[derive(Debug)]
pub struct SessionStoreInner {
    /// The process id of the shell of each open channel.
    pub active: AssocList<u32>,
    /// The start directory waiting for each channel.
    pub pending_start_dirs: AssocList<String>,
}

impl SessionStoreInner {
    /// Whether both maps are well formed.
    pub open spec fn wf(&self) -> bool {
        self.active.wf() && self.pending_start_dirs.wf()
    }
}

/// The store of sessions and pending start directories.
#[derive(Debug)]
pub struct SessionStore {
    inner: SessionStoreInner,
}

/// Why the working directory of a channel's shell is not known.
#[derive(Debug)]
pub enum SessionCwdError {
    /// No session is open on the channel.
    NotFound,
    /// The process could not be inspected; the message says why.
    LookupFailed(String),
}

/// The open sessions after the session of `channel` ends: it is forgotten
/// only when it is the one of `process_id`.
pub open spec fn unregistered(
    active: Map<Seq<char>, u32>,
    channel: Seq<char>,
    process_id: Option<u32>,
) -> Map<Seq<char>, u32> {
    match process_id {
        Some(pid) => if active.contains_key(channel) && active[channel] == pid {
            active.remove(channel)
        } else {
            active
        },
        None => active,
    }
}

impl SessionStore {
    /// The maps of the store.
    pub closed spec fn inner_view(&self) -> &SessionStoreInner {
        &self.inner
    }

    /// Whether the store is well formed.
    pub open spec fn wf(&self) -> bool {
        self.inner_view().wf()
    }

    /// The open sessions: channel to process id.
    pub open spec fn active(&self) -> Map<Seq<char>, u32> {
        self.inner_view().active@
    }

    /// The pending start directories: channel to directory.
    pub open spec fn pending(&self) -> Map<Seq<char>, String> {
        self.inner_view().pending_start_dirs@
    }

    /// An empty store.
    pub fn new() -> (s: SessionStore)
        ensures
            s.wf(),
            s.active() == Map::<Seq<char>, u32>::empty(),
            s.pending() == Map::<Seq<char>, String>::empty(),
    {
        SessionStore {
            inner: SessionStoreInner { active: AssocList::new(), pending_start_dirs: AssocList::new() },
        }
    }

    /// The maps, to read.
    pub fn read_inner(&self) -> (r: &SessionStoreInner)
        ensures
            *r == *self.inner_view(),
    {
        &self.inner
    }

    /// The maps, to change.
    pub fn write_inner(&mut self) -> (r: &mut SessionStoreInner)
        ensures
            *r == *old(self).inner_view(),
            *final(self).inner_view() == *final(r),
    {
        &mut self.inner
    }

    /// Records the shell of a channel's new session; without a process id
    /// nothing is recorded.
    pub fn register(&mut self, channel: String, process_id: Option<u32>)
        requires
            old(self).wf(),
        ensures
            final(self).wf(),
            final(self).pending() == old(self).pending(),
            final(self).active() == match process_id {
                Some(pid) => old(self).active().insert(channel@, pid),
                None => old(self).active(),
            },
    {
        let process_id = match process_id {
            None => return,
            Some(p) => p,
        };
        let inner = self.write_inner();
        inner.active.insert(channel, process_id);
    }

    /// Forgets the session of a channel, but only if it is the one of this
    /// process id (a newer session on the same channel stays).
    pub fn unregister(&mut self, channel: &str, process_id: Option<u32>)
        requires
            old(self).wf(),
        ensures
            final(self).wf(),
            final(self).pending() == old(self).pending(),
            final(self).active() == unregistered(old(self).active(), channel@, process_id),
    {
        let process_id = match process_id {
            None => return,
            Some(p) => p,
        };
        let inner = self.write_inner();
        let matches = match inner.active.get(channel) {
            Some(pid) => *pid == process_id,
            None => false,
        };
        if matches {
            inner.active.remove(channel);
        }
    }

    /// The working directory of the shell on a channel, as `process_cwd`
    /// finds it for the shell's process id.
    pub fn cwd_for_channel<F: Fn(u32) -> Result<String, String>>(
        &self,
        channel: &str,
        process_cwd: F,
    ) -> (r: Result<String, SessionCwdError>)
        requires
            self.wf(),
            forall|pid: u32| process_cwd.requires((pid,)),
        ensures
            !self.active().contains_key(channel@) ==> r matches Err(SessionCwdError::NotFound),
            self.active().contains_key(channel@) ==> {
                let pid = self.active()[channel@];
                match r {
                    Ok(dir) => process_cwd.ensures((pid,), Ok::<String, String>(dir)),
                    Err(SessionCwdError::LookupFailed(m)) => process_cwd.ensures(
                        (pid,),
                        Err::<String, String>(m),
                    ),
                    Err(SessionCwdError::NotFound) => false,
                }
            },
    {
        let process_id = match self.read_inner().active.get(channel) {
            Some(pid) => *pid,
            None => return Err(SessionCwdError::NotFound),
        };
        match process_cwd(process_id) {
            Ok(dir) => Ok(dir),
            Err(m) => Err(SessionCwdError::LookupFailed(m)),
        }
    }

    /// Sets the start directory that the next session on `channel` picks
    /// up.
    pub fn set_start_dir(&mut self, channel: String, start_dir: String)
        requires
            old(self).wf(),
        ensures
            final(self).wf(),
            final(self).active() == old(self).active(),
            final(self).pending() == old(self).pending().insert(channel@, start_dir),
    {
        let inner = self.write_inner();
        inner.pending_start_dirs.insert(channel, start_dir);
    }

    /// Drops the start directory waiting for `channel`.
    pub fn clear_start_dir(&mut self, channel: &str)
        requires
            old(self).wf(),
        ensures
            final(self).wf(),
            final(self).active() == old(self).active(),
            final(self).pending() == old(self).pending().remove(channel@),
    {
        let inner = self.write_inner();
        inner.pending_start_dirs.remove(channel);
    }

    /// Hands out the start directory waiting for `channel`, once.
    pub fn take_start_dir(&mut self, channel: &str) -> (r: Option<String>)
        requires
            old(self).wf(),
        ensures
            final(self).wf(),
            final(self).active() == old(self).active(),
            final(self).pending() == old(self).pending().remove(channel@),
            match r {
                Some(d) => old(self).pending().contains_key(channel@) && d == old(self).pending()[channel@],
                None => !old(self).pending().contains_key(channel@),
            },
    {
        let inner = self.write_inner();
        inner.pending_start_dirs.remove(channel)
    }
}

// ---------------------------------------------------------------------------
// The working directory that `lsof -Fn` reports
// ---------------------------------------------------------------------------

/// The views of a list of lines.
pub open spec fn line_views(lines: Seq<Vec<char>>) -> Seq<Seq<char>> {
    lines.map_values(|l: Vec<char>| l@)
}

/// Splits text into its lines at each `\n` (see [`split_lines`]).
pub fn split_lines_of(chars: &[char]) -> (r: Vec<Vec<char>>)
    ensures
        line_views(r@) == split_lines(chars@),
{
    let n = chars.len();
    let mut done: Vec<Vec<char>> = Vec::new();
    let mut cur: Vec<char> = Vec::new();
    let mut i: usize = 0;
    assert(chars@.take(0) =~= Seq::<char>::empty());
    assert(line_views(done@).push(cur@) =~= seq![Seq::<char>::empty()]);
    while i < n
        invariant
            i <= n == chars@.len(),
            line_views(done@).push(cur@) == split_lines(chars@.take(i as int)),
        decreases n - i,
    {
        let ghost prev = split_lines(chars@.take(i as int));
        assert(chars@.take(i + 1).drop_last() =~= chars@.take(i as int));
        assert(chars@.take(i + 1).last() == chars@[i as int]);
        if chars[i] == '\n' {
            let line = cur;
            done.push(line);
            cur = Vec::new();
            assert(line_views(done@) =~= prev);
            assert(line_views(done@).push(cur@) =~= prev.push(seq![]));
        } else {
            cur.push(chars[i]);
            assert(line_views(done@).push(cur@) =~= prev.update(
                prev.len() - 1,
                prev.last().push(chars@[i as int]),
            ));
        }
        i = i + 1;
    }
    assert(chars@.take(n as int) =~= chars@);
    done.push(cur);
    assert(line_views(done@) =~= split_lines(chars@));
    done
}

/// The `i`-th line as `str::lines` gives it: without the `\r` of a `\r\n`
/// ending (the last line has no line ending).
pub open spec fn line_without_cr(lines: Seq<Seq<char>>, i: int) -> Seq<char> {
    let l = lines[i];
    if i + 1 < lines.len() && l.len() > 0 && l.last() == '\r' {
        l.drop_last()
    } else {
        l
    }
}

/// Whether the `i`-th line is a name field of `lsof -F` output: it starts
/// with `n`.
pub open spec fn is_name_field(lines: Seq<Seq<char>>, i: int) -> bool {
    let l = line_without_cr(lines, i);
    l.len() > 0 && l[0] == 'n'
}

/// The value of the first name field from line `i` on.
pub open spec fn first_name_field(lines: Seq<Seq<char>>, i: nat) -> Option<Seq<char>>
    decreases lines.len() - i,
{
    if i >= lines.len() {
        None
    } else if is_name_field(lines, i as int) {
        Some(line_without_cr(lines, i as int).drop_first())
    } else {
        first_name_field(lines, i + 1)
    }
}

/// The directory that `lsof -a -d cwd -Fn` reports in its output: the rest
/// of the first line that starts with `n`; none where no line does.
pub open spec fn lsof_cwd(output: Seq<char>) -> Option<Seq<char>> {
    first_name_field(split_lines(output), 0)
}

/// Reads the working directory from the output of `lsof -a -d cwd -Fn`
/// (see [`lsof_cwd`]).
pub fn lsof_reported_cwd(output: &str) -> (r: Option<String>)
    ensures
        match r {
            Some(dir) => lsof_cwd(output@) == Some(dir@),
            None => lsof_cwd(output@) is None,
        },
{
    let chars = chars_of(output);
    let lines = split_lines_of(chars.as_slice());
    let ghost views = split_lines(chars@);
    let n = lines.len();
    let mut i: usize = 0;
    while i < n
        invariant
            i <= n == lines@.len() == views.len(),
            views == line_views(lines@),
            views == split_lines(output@),
            first_name_field(views, 0) == first_name_field(views, i as nat),
        decreases n - i,
    {
        let line = &lines[i];
        assert(views[i as int] == line@);
        let m = line.len();
        let end: usize = if i + 1 < n && m > 0 && line[m - 1] == '\r' {
            m - 1
        } else {
            m
        };
        assert(line_without_cr(views, i as int) =~= line@.subrange(0, end as int));
        if end > 0 && line[0] == 'n' {
            let dir = copy_range(line.as_slice(), 1, end);
            assert(dir@ =~= line_without_cr(views, i as int).drop_first());
            return Some(string_of(dir.as_slice()));
        }
        i = i + 1;
    }
    None
}

// ---------------------------------------------------------------------------
// Laws
// ---------------------------------------------------------------------------

/// A start directory is handed out once: after it is set for a channel,
/// taking it gives it, and taking it again gives nothing.
pub proof fn lemma_start_dir_taken_once(
    pending: Map<Seq<char>, String>,
    channel: Seq<char>,
    dir: String,
)
    ensures
        pending.insert(channel, dir).contains_key(channel),
        pending.insert(channel, dir)[channel] == dir,
        !pending.insert(channel, dir).remove(channel).contains_key(channel),
{
}

/// The end of an older session on a channel does not forget a newer
/// session there; the end of the session itself does.
pub proof fn lemma_unregister_needs_matching_process(
    active: Map<Seq<char>, u32>,
    channel: Seq<char>,
    pid: u32,
    other: u32,
)
    requires
        pid != other,
    ensures
        unregistered(active.insert(channel, pid), channel, Some(other)) == active.insert(channel, pid),
        !unregistered(active.insert(channel, pid), channel, Some(pid)).contains_key(channel),
        unregistered(active, channel, None) == active,
{
}

/// Ending a session forgets at most its own channel: every other channel
/// keeps its session and process id; the channel itself is forgotten when
/// the process id is the one recorded for it, and kept otherwise.
pub proof fn lemma_unregister_touches_only_its_channel(
    active: Map<Seq<char>, u32>,
    channel: Seq<char>,
    process_id: Option<u32>,
    other: Seq<char>,
)
    requires
        other != channel,
    ensures
        unregistered(active, channel, process_id).contains_key(other) == active.contains_key(other),
        active.contains_key(other) ==> unregistered(active, channel, process_id)[other]
            == active[other],
        (process_id matches Some(pid) && active.contains_key(channel) && active[channel] == pid)
            ==> !unregistered(active, channel, process_id).contains_key(channel),
        !(process_id matches Some(pid) && active.contains_key(channel) && active[channel] == pid)
            ==> unregistered(active, channel, process_id) == active,
{
}

} // verus!
