//! The terminal sessions: their identifiers, sizes, working directories and
//! environments, and the table of running sessions that the API reads and
//! changes. The pseudo-terminal itself and its channels are the caller's
//! (`H` is whatever handle the caller keeps per session).
use vstd::prelude::*;
use crate::table::{KeyedTable, has_key, keys_unique};
use crate::text::{concat2, decimal, decimal_string, lossy_utf8, owned, utf8_lossy};

verus! {

/// Information about a terminal session.
pub struct SessionInfo {
    pub id: String,
    pub cols: u16,
    pub rows: u16,
    pub created_at: u64,
}

impl SessionInfo {
    /// A copy of this information.
    pub fn duplicate(&self) -> (r: SessionInfo)
        ensures
            r == *self,
    {
        SessionInfo { id: self.id.clone(), cols: self.cols, rows: self.rows, created_at: self.created_at }
    }
}

/// A running session: its information and the caller's handle for it.
pub struct SessionHandle<H> {
    pub info: SessionInfo,
    pub io: H,
}

/// The sessions are named by distinct identifiers.
pub open spec fn ids_unique<H>(s: Seq<SessionHandle<H>>) -> bool {
    forall|i: int, j: int|
        0 <= i < j < s.len() ==> (#[trigger] s[i]).info.id@ != (#[trigger] s[j]).info.id@
}

/// The session named `id` is among `s`.
pub open spec fn has_session<H>(s: Seq<SessionHandle<H>>, id: Seq<char>) -> bool {
    exists|i: int| 0 <= i < s.len() && (#[trigger] s[i]).info.id@ == id
}

/// The position of the session named `id` (meaningful when it is there).
pub open spec fn session_pos<H>(s: Seq<SessionHandle<H>>, id: Seq<char>) -> int {
    choose|i: int| 0 <= i < s.len() && (#[trigger] s[i]).info.id@ == id
}

/// The information of the session named `id`, if there is one.
pub open spec fn find_session<H>(s: Seq<SessionHandle<H>>, id: Seq<char>) -> Option<SessionInfo> {
    if has_session(s, id) {
        Some(s[session_pos(s, id)].info)
    } else {
        None
    }
}

/// The sessions after registering `h`: a session with the same identifier is
/// replaced in place, otherwise `h` is added at the end.
pub open spec fn registered<H>(s: Seq<SessionHandle<H>>, h: SessionHandle<H>) -> Seq<SessionHandle<H>> {
    if has_session(s, h.info.id@) {
        s.update(session_pos(s, h.info.id@), h)
    } else {
        s.push(h)
    }
}

/// The sessions after removing the one named `id`.
pub open spec fn without<H>(s: Seq<SessionHandle<H>>, id: Seq<char>) -> Seq<SessionHandle<H>> {
    if has_session(s, id) {
        s.remove(session_pos(s, id))
    } else {
        s
    }
}

/// The error the session table answers for an unknown identifier.
pub open spec fn not_found_message() -> Seq<char> {
    "Session not found"@
}

/// Manages the terminal sessions.
pub struct PtyManager<H> {
    sessions: KeyedTable<SessionHandle<H>>,
}

impl<H> View for PtyManager<H> {
    type V = Seq<SessionHandle<H>>;

    closed spec fn view(&self) -> Seq<SessionHandle<H>> {
        self.sessions@.map_values(|e: (Seq<char>, SessionHandle<H>)| e.1)
    }
}

proof fn lemma_pos<H>(s: Seq<SessionHandle<H>>, id: Seq<char>, i: int)
    requires
        ids_unique(s),
        0 <= i < s.len(),
        s[i].info.id@ == id,
    ensures
        has_session(s, id),
        session_pos(s, id) == i,
{
    let p = session_pos(s, id);
    assert(0 <= p < s.len() && s[p].info.id@ == id);
    if p != i {
        if p < i {
            assert(s[p].info.id@ != s[i].info.id@);
        } else {
            assert(s[i].info.id@ != s[p].info.id@);
        }
    }
}

impl<H> PtyManager<H> {
    #[verifier::type_invariant]
    closed spec fn keyed_by_id(self) -> bool {
        &&& keys_unique(self.sessions@)
        &&& forall|i: int|
            0 <= i < self.sessions@.len() ==> (#[trigger] self.sessions@[i]).0
                == self.sessions@[i].1.info.id@
    }

    /// An empty session table.
    pub fn new() -> (m: Self)
        ensures
            m@ == Seq::<SessionHandle<H>>::empty(),
            ids_unique(m@),
    {
        let m = PtyManager { sessions: KeyedTable::new() };
        assert(m@ =~= Seq::<SessionHandle<H>>::empty());
        m
    }

    proof fn lemma_view(&self)
        requires
            self.keyed_by_id(),
        ensures
            ids_unique(self@),
            self@.len() == self.sessions@.len(),
            forall|i: int|
                0 <= i < self@.len() ==> #[trigger] self@[i] == self.sessions@[i].1
                    && self.sessions@[i].0 == self@[i].info.id@,
            forall|id: Seq<char>| has_session(self@, id) == has_key(self.sessions@, id),
    {
        let s = self.sessions@;
        assert forall|i: int, j: int| 0 <= i < j < self@.len() implies (#[trigger] self@[i]).info.id@
            != (#[trigger] self@[j]).info.id@ by {
            assert(s[i].0 != s[j].0);
        }
        assert forall|id: Seq<char>| has_session(self@, id) == has_key(s, id) by {
            if has_session(self@, id) {
                let i = choose|i: int| 0 <= i < self@.len() && (#[trigger] self@[i]).info.id@ == id;
                assert(s[i].0 == id);
            }
            if has_key(s, id) {
                let i = choose|i: int| 0 <= i < s.len() && (#[trigger] s[i]).0 == id;
                assert(self@[i].info.id@ == id);
            }
        }
    }

    /// The number of sessions.
    pub fn len(&self) -> (n: usize)
        ensures
            n == self@.len(),
            ids_unique(self@),
    {
        proof {
            use_type_invariant(self);
            self.lemma_view();
        }
        self.sessions.len()
    }

    /// Registers a session under its identifier; a session registered under
    /// the same identifier before is replaced.
    pub fn register(&mut self, handle: SessionHandle<H>)
        ensures
            ids_unique(old(self)@),
            final(self)@ == registered(old(self)@, handle),
            ids_unique(final(self)@),
    {
        proof {
            use_type_invariant(&*self);
            self.lemma_view();
        }
        let key = handle.info.id.clone();
        let ghost old_s = self.sessions@;
        let ghost old_v = self@;
        let mut sessions = KeyedTable::new();
        std::mem::swap(&mut sessions, &mut self.sessions);
        let r = sessions.insert(key, handle);
        proof {
            let s2 = sessions@;
            if r is None {
                    assert(!has_session(old_v, handle.info.id@));
                    assert(s2.map_values(|e: (Seq<char>, SessionHandle<H>)| e.1) =~= old_v.push(
                        handle,
                    ));
            } else {
                    let prev = r->0;
                    let i = choose|i: int|
                        0 <= i < old_s.len() && old_s[i].0 == handle.info.id@ && old_s[i].1 == prev
                            && s2 == old_s.update(i, (handle.info.id@, handle));
                    lemma_pos(old_v, handle.info.id@, i);
                    assert(s2.map_values(|e: (Seq<char>, SessionHandle<H>)| e.1) =~= old_v.update(
                        i,
                        handle,
                    ));
            }
            assert forall|i: int| 0 <= i < s2.len() implies (#[trigger] s2[i]).0
                == s2[i].1.info.id@ by {
                if r is None {
                        if i < old_s.len() {
                            assert(s2[i] == old_s[i]);
                        }
                } else {
                        assert(s2.len() == old_s.len());
                }
            }
        }
        self.sessions = sessions;
        proof {
            use_type_invariant(&*self);
            self.lemma_view();
        }
    }

    /// The handle of the session named `id`, or the answer for an unknown
    /// session.
    pub fn handle(&self, id: &str) -> (r: Result<&H, String>)
        ensures
            ids_unique(self@),
            match r {
                Ok(h) => has_session(self@, id@) && *h == self@[session_pos(self@, id@)].io,
                Err(e) => !has_session(self@, id@) && e@ == not_found_message(),
            },
    {
        proof {
            use_type_invariant(self);
            self.lemma_view();
        }
        match self.sessions.find(id) {
            None => Err(owned("Session not found")),
            Some(i) => {
                let (_, h) = self.sessions.entry_at(i);
                proof {
                    lemma_pos(self@, id@, i as int);
                }
                Ok(&h.io)
            },
        }
    }

    /// The information of the session named `id`.
    pub fn get_info(&self, id: &str) -> (r: Option<SessionInfo>)
        ensures
            ids_unique(self@),
            r == find_session(self@, id@),
    {
        proof {
            use_type_invariant(self);
            self.lemma_view();
        }
        match self.sessions.find(id) {
            None => None,
            Some(i) => {
                let (_, h) = self.sessions.entry_at(i);
                proof {
                    lemma_pos(self@, id@, i as int);
                }
                Some(h.info.duplicate())
            },
        }
    }

    /// Ends the session named `id`: it leaves the table, and its handle is
    /// dropped. An unknown identifier is answered with an error.
    pub fn kill(&mut self, id: &str) -> (r: Result<(), String>)
        ensures
            ids_unique(old(self)@),
            final(self)@ == without(old(self)@, id@),
            ids_unique(final(self)@),
            match r {
                Ok(_) => has_session(old(self)@, id@),
                Err(e) => !has_session(old(self)@, id@) && e@ == not_found_message(),
            },
    {
        proof {
            use_type_invariant(&*self);
            self.lemma_view();
        }
        let ghost old_s = self.sessions@;
        let ghost old_v = self@;
        let mut sessions = KeyedTable::new();
        std::mem::swap(&mut sessions, &mut self.sessions);
        let r = sessions.remove(id);
        proof {
            let s2 = sessions@;
            if r is None {
                    assert(s2.map_values(|e: (Seq<char>, SessionHandle<H>)| e.1) =~= old_v);
            } else {
                    let prev = r->0;
                    let i = choose|i: int|
                        0 <= i < old_s.len() && old_s[i].0 == id@ && old_s[i].1 == prev && s2
                            == old_s.remove(i);
                    lemma_pos(old_v, id@, i);
                    assert(s2.map_values(|e: (Seq<char>, SessionHandle<H>)| e.1) =~= old_v.remove(
                        i,
                    ));
                    assert forall|j: int| 0 <= j < s2.len() implies (#[trigger] s2[j]).0
                        == s2[j].1.info.id@ by {
                        if j < i {
                            assert(s2[j] == old_s[j]);
                        } else {
                            assert(s2[j] == old_s[j + 1]);
                        }
                    }
            }
        }
        self.sessions = sessions;
        proof {
            use_type_invariant(&*self);
            self.lemma_view();
        }
        match r {
            Some(_) => Ok(()),
            None => Err(owned("Session not found")),
        }
    }

    /// The information of every session, in the table's order.
    pub fn list(&self) -> (r: Vec<SessionInfo>)
        ensures
            ids_unique(self@),
            r@ == self@.map_values(|h: SessionHandle<H>| h.info),
            forall|i: int, j: int| 0 <= i < j < r@.len() ==> (#[trigger] r@[i]).id@ != (#[trigger] r@[j]).id@,
    {
        proof {
            use_type_invariant(self);
            self.lemma_view();
        }
        let n = self.sessions.len();
        let mut out: Vec<SessionInfo> = Vec::new();
        for i in 0..n
            invariant
                n == self@.len(),
                n == self.sessions@.len(),
                forall|k: int| 0 <= k < n ==> #[trigger] self@[k] == self.sessions@[k].1,
                out@ == self@.take(i as int).map_values(|h: SessionHandle<H>| h.info),
        {
            let (_, h) = self.sessions.entry_at(i);
            out.push(h.info.duplicate());
            assert(self@.take(i + 1).map_values(|h: SessionHandle<H>| h.info) =~= self@.take(
                i as int,
            ).map_values(|h: SessionHandle<H>| h.info).push(self@[i as int].info));
        }
        assert(self@.take(n as int) =~= self@);
        assert forall|i: int, j: int| 0 <= i < j < out@.len() implies (#[trigger] out@[i]).id@
            != (#[trigger] out@[j]).id@ by {
            assert(out@[i] == self@[i].info);
            assert(out@[j] == self@[j].info);
        }
        out
    }
}

impl<H> Default for PtyManager<H> {
    /// An empty session table.
    fn default() -> (m: Self)
        ensures
            m@ == Seq::<SessionHandle<H>>::empty(),
    {
        Self::new()
    }
}

/// What registering gives back: right after a session is registered, its
/// identifier finds exactly its information, and every other identifier finds
/// what it found before.
pub proof fn lemma_register_then_find<H>(s: Seq<SessionHandle<H>>, h: SessionHandle<H>, other: Seq<char>)
    requires
        ids_unique(s),
    ensures
        ids_unique(registered(s, h)),
        find_session(registered(s, h), h.info.id@) == Some(h.info),
        other != h.info.id@ ==> find_session(registered(s, h), other) == find_session(s, other),
{
    let r = registered(s, h);
    let id = h.info.id@;
    if has_session(s, id) {
        let p = session_pos(s, id);
        assert forall|i: int, j: int| 0 <= i < j < r.len() implies (#[trigger] r[i]).info.id@
            != (#[trigger] r[j]).info.id@ by {
            if i == p {
                assert(s[p].info.id@ == id);
            } else if j == p {
                assert(s[p].info.id@ == id);
            }
        }
        lemma_pos(r, id, p);
        if other != id && has_session(s, other) {
            let q = session_pos(s, other);
            assert(q != p);
            lemma_pos(r, other, q);
        }
        if other != id && has_session(r, other) {
            let q = session_pos(r, other);
            assert(q != p);
            assert(s[q] == r[q]);
        }
    } else {
        assert forall|i: int, j: int| 0 <= i < j < r.len() implies (#[trigger] r[i]).info.id@
            != (#[trigger] r[j]).info.id@ by {
            if j == s.len() {
                assert(r[i] == s[i]);
            }
        }
        lemma_pos(r, id, s.len() as int);
        if other != id && has_session(s, other) {
            let q = session_pos(s, other);
            lemma_pos(r, other, q);
        }
        if other != id && has_session(r, other) {
            let q = session_pos(r, other);
            assert(q < s.len());
            assert(s[q] == r[q]);
        }
    }
}

/// What killing leaves: the killed identifier finds nothing, every other
/// identifier finds what it found before.
pub proof fn lemma_kill_then_find<H>(s: Seq<SessionHandle<H>>, id: Seq<char>, other: Seq<char>)
    requires
        ids_unique(s),
    ensures
        ids_unique(without(s, id)),
        find_session(without(s, id), id) == None::<SessionInfo>,
        other != id ==> find_session(without(s, id), other) == find_session(s, other),
{
    let r = without(s, id);
    if has_session(s, id) {
        let p = session_pos(s, id);
        assert forall|i: int, j: int| 0 <= i < j < r.len() implies (#[trigger] r[i]).info.id@
            != (#[trigger] r[j]).info.id@ by {
            let i2 = if i < p {
                i
            } else {
                i + 1
            };
            let j2 = if j < p {
                j
            } else {
                j + 1
            };
            assert(r[i] == s[i2] && r[j] == s[j2]);
        }
        if has_session(r, id) {
            let q = session_pos(r, id);
            let q2 = if q < p {
                q
            } else {
                q + 1
            };
            assert(r[q] == s[q2]);
            if q2 < p {
                assert(s[q2].info.id@ != s[p].info.id@);
            } else {
                assert(s[p].info.id@ != s[q2].info.id@);
            }
        }
        if other != id && has_session(s, other) {
            let q = session_pos(s, other);
            assert(q != p);
            let q1 = if q < p {
                q
            } else {
                q - 1
            };
            assert(r[q1] == s[q]);
            lemma_pos(r, other, q1);
        }
        if other != id && has_session(r, other) {
            let q = session_pos(r, other);
            let q2 = if q < p {
                q
            } else {
                q + 1
            };
            assert(r[q] == s[q2]);
            lemma_pos(s, other, q2);
        }
    }
}

// ---------------------------------------------------------------------------
// Opening a session
// ---------------------------------------------------------------------------

/// `c` is a lowercase hexadecimal digit.
pub open spec fn is_lower_hex(c: char) -> bool {
    ('0' <= c && c <= '9') || ('a' <= c && c <= 'f')
}

/// `s` is a random (version 4, RFC 4122 variant) UUID in the hyphenated
/// lowercase form that `Uuid`'s `Display` writes.
pub open spec fn is_uuid_v4_text(s: Seq<char>) -> bool {
    &&& s.len() == 36
    &&& forall|i: int|
        0 <= i < 36 ==> if i == 8 || i == 13 || i == 18 || i == 23 {
            #[trigger] s[i] == '-'
        } else {
            is_lower_hex(s[i])
        }
    &&& s[14] == '4'
    &&& (s[19] == '8' || s[19] == '9' || s[19] == 'a' || s[19] == 'b')
}

/// `uuid::Uuid::new_v4().to_string()`: a fresh random identifier. The
/// contract states the form that the crate's source gives every outcome
/// (version nibble 4, variant bits `10`, hyphenated lowercase hex); which
/// identifier comes out is left open.
#[verifier::external_body]
fn random_uuid() -> (s: String)
    ensures
        is_uuid_v4_text(s@),
{
    uuid::Uuid::new_v4().to_string()
}

/// What a new session is opened with.
pub struct SessionPlan {
    pub id: String,
    pub cols: u16,
    pub rows: u16,
    pub cwd: String,
}

/// The home directory: `HOME`, else `USERPROFILE`, else `.`.
pub open spec fn home_dir(home: Option<Seq<char>>, userprofile: Option<Seq<char>>) -> Seq<char> {
    match home {
        Some(h) => h,
        None => match userprofile {
            Some(u) => u,
            None => "."@,
        },
    }
}

/// The home directory from the values of `HOME` and `USERPROFILE`.
pub fn default_home(home: Option<String>, userprofile: Option<String>) -> (r: String)
    ensures
        r@ == home_dir(
            match home {
                Some(h) => Some(h@),
                None => None,
            },
            match userprofile {
                Some(u) => Some(u@),
                None => None,
            },
        ),
{
    match home {
        Some(h) => h,
        None => match userprofile {
            Some(u) => u,
            None => owned("."),
        },
    }
}

/// The identifier, size and working directory of a new session: 80 columns
/// and 24 rows unless given, the home directory unless a directory is given.
pub fn plan_session(
    cols: Option<u16>,
    rows: Option<u16>,
    cwd: Option<String>,
    home: Option<String>,
    userprofile: Option<String>,
) -> (p: SessionPlan)
    ensures
        is_uuid_v4_text(p.id@),
        p.cols == match cols {
            Some(c) => c,
            None => 80u16,
        },
        p.rows == match rows {
            Some(r) => r,
            None => 24u16,
        },
        p.cwd@ == match cwd {
            Some(c) => c@,
            None => home_dir(
                match home {
                    Some(h) => Some(h@),
                    None => None,
                },
                match userprofile {
                    Some(u) => Some(u@),
                    None => None,
                },
            ),
        },
{
    let id = random_uuid();
    let cols = match cols {
        Some(c) => c,
        None => 80,
    };
    let rows = match rows {
        Some(r) => r,
        None => 24,
    };
    let cwd = match cwd {
        Some(c) => c,
        None => default_home(home, userprofile),
    };
    SessionPlan { id, cols, rows, cwd }
}

/// The path of the bash shipped with Termux.
pub open spec fn termux_bash() -> Seq<char> {
    "/data/data/com.termux/files/usr/bin/bash"@
}

/// The shell a session runs: `SHELL` when set; on Windows `COMSPEC`, else
/// `cmd.exe`; elsewhere Termux's bash when it exists, else `/bin/bash`.
pub fn detect_shell(
    shell_env: Option<String>,
    windows: bool,
    comspec: Option<String>,
    termux_bash_exists: bool,
) -> (r: String)
    ensures
        r@ == match shell_env {
            Some(s) => s@,
            None => if windows {
                match comspec {
                    Some(c) => c@,
                    None => "cmd.exe"@,
                }
            } else if termux_bash_exists {
                termux_bash()
            } else {
                "/bin/bash"@
            },
        },
{
    match shell_env {
        Some(s) => s,
        None => if windows {
            match comspec {
                Some(c) => c,
                None => owned("cmd.exe"),
            }
        } else if termux_bash_exists {
            owned("/data/data/com.termux/files/usr/bin/bash")
        } else {
            owned("/bin/bash")
        },
    }
}

/// The environment variables a session's shell is started with, in order.
pub fn session_env(cols: u16, rows: u16) -> (r: Vec<(String, String)>)
    ensures
        r@.len() == 5,
        r@[0].0@ == "TERM"@ && r@[0].1@ == "xterm-256color"@,
        r@[1].0@ == "COLORTERM"@ && r@[1].1@ == "truecolor"@,
        r@[2].0@ == "COLUMNS"@ && r@[2].1@ == decimal(cols as nat),
        r@[3].0@ == "LINES"@ && r@[3].1@ == decimal(rows as nat),
        r@[4].0@ == "POCKETDEVOS"@ && r@[4].1@ == "1"@,
{
    let mut r: Vec<(String, String)> = Vec::new();
    r.push((owned("TERM"), owned("xterm-256color")));
    r.push((owned("COLORTERM"), owned("truecolor")));
    r.push((owned("COLUMNS"), decimal_string(cols as u64)));
    r.push((owned("LINES"), decimal_string(rows as u64)));
    r.push((owned("POCKETDEVOS"), owned("1")));
    r
}

/// The error for a pseudo-terminal that could not be opened.
pub fn open_error_message(error: &str) -> (r: String)
    ensures
        r@ == "Failed to open PTY: "@ + error@,
{
    concat2("Failed to open PTY: ", error)
}

/// The error for a shell that could not be started in the pseudo-terminal.
pub fn spawn_error_message(error: &str) -> (r: String)
    ensures
        r@ == "Failed to spawn shell: "@ + error@,
{
    concat2("Failed to spawn shell: ", error)
}

/// What one read from the pseudo-terminal gave.
pub enum PtyRead {
    /// These bytes (none at the end of the output).
    Bytes(Vec<u8>),
    /// The read was interrupted by a signal.
    Interrupted,
    /// The read failed.
    Failed,
}

/// What the output loop does next.
pub enum PtyReadStep {
    /// Hand this text to the session's listeners, then read again; when no
    /// listener is left, stop.
    Forward(String),
    /// Read again.
    Retry,
    /// Stop reading: the shell's exit is awaited next.
    Stop,
}

/// The output loop's step after a read: bytes are decoded as lossy UTF-8
/// and handed on; the end of the output or a failed read stops the loop; an
/// interrupted read is retried.
pub fn read_step(r: PtyRead) -> (s: PtyReadStep)
    ensures
        match r {
            PtyRead::Bytes(b) => if b@.len() == 0 {
                s is Stop
            } else {
                s matches PtyReadStep::Forward(t) && t@ == utf8_lossy(b@)
            },
            PtyRead::Interrupted => s is Retry,
            PtyRead::Failed => s is Stop,
        },
{
    match r {
        PtyRead::Bytes(b) => if b.len() == 0 {
            PtyReadStep::Stop
        } else {
            PtyReadStep::Forward(lossy_utf8(b.as_slice()))
        },
        PtyRead::Interrupted => PtyReadStep::Retry,
        PtyRead::Failed => PtyReadStep::Stop,
    }
}

/// The exit code reported for a finished shell: its status code read as a
/// signed number, or 1 when no status could be had.
pub fn exit_code_of(status: Option<u32>) -> (r: i32)
    ensures
        r == match status {
            Some(c) => c as i32,
            None => 1i32,
        },
{
    match status {
        Some(c) => c as i32,
        None => 1,
    }
}

} // verus!
