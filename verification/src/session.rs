//! One run of the helper process: what it does next, given how its last
//! action ended.
//!
//! The helper raises its privilege, authenticates the user, takes on the
//! user's identity step by step and only then touches the requested path.
//! [`Session::action`] names the action that is due, [`Session::step`] takes
//! the reply to it to the next state. The caller performs the actions.

use vstd::prelude::*;
use vstd::string::StringExecFns;
use crate::code::ReturnCode;
use crate::frame::Kind;

verus! {

/// Bytes of a file read and written at a time.
pub const CHUNK_SIZE: usize = 4096;

/// The service name under which the helper talks to the authentication
/// stack.
pub const AUTH_SERVICE: &'static str = "login";

/// A question of the authentication stack.
#[derive(Debug, Clone, Copy, PartialEq, Eq, Structural)]
pub enum Prompt {
    /// The answer may be shown while it is typed.
    Echo,
    /// The answer is a secret.
    Blind,
}

/// A message of the authentication stack.
#[derive(Debug, Clone, Copy, PartialEq, Eq, Structural)]
pub enum Notice {
    Info,
    Error,
}

/// Why an I/O action failed, as far as the helper tells failures apart.
#[derive(Debug, Clone, Copy, PartialEq, Eq, Structural)]
pub enum Fault {
    NotFound,
    PermissionDenied,
    Interrupted,
    BrokenPipe,
    Other,
}

/// Why a helper gives up without a return code of its own.
#[derive(Debug, Clone, Copy, PartialEq, Eq, Structural)]
pub enum Abort {
    /// The request names the superuser and the safeguard is on.
    RootRefused,
    /// The helper could not raise its privilege.
    NotPrivileged,
    /// The authentication stack could not be used.
    AuthUnavailable,
    /// A step of the change of identity failed.
    SwitchFailed,
    /// The helper could raise its privilege again after the change.
    StillPrivileged,
    /// Reading the file failed.
    ReadFailed,
    /// The reader of the output is gone.
    ClientLost,
    /// Writing the output failed.
    WriteFailed,
}

/// One action of the helper.
#[derive(Debug, Clone, Copy, PartialEq, Eq, Structural)]
pub enum Action {
    /// Set the user ID to that of the superuser.
    Elevate,
    /// Run the user name and password through the authentication stack.
    Authenticate,
    /// Look the user name up in the password database.
    ResolveUser,
    /// Set the group ID.
    SetGroup { gid: u32 },
    /// Set the list of supplementary groups to the empty list.
    ClearGroups,
    /// Set the supplementary groups to those of the user in the group
    /// database, and `gid`.
    InitGroups { gid: u32 },
    /// Set the real, effective and saved user ID.
    SetUser { uid: u32 },
    /// Try to set the user ID to that of the superuser again.
    ProbeRoot,
    /// Enumerate the directory at the path.
    ListDirectory,
    /// Write the encoded listing to standard output.
    WriteListing,
    /// Open the file at the path.
    OpenFile,
    /// Read up to `CHUNK_SIZE` bytes of the file.
    ReadChunk,
    /// Write the first `len` bytes of the last read to standard output.
    WriteChunk { len: usize },
    /// Leave with the return code.
    Exit(ReturnCode),
    /// Give up.
    Abort(Abort),
}

/// How an action ended.
#[derive(Debug, Clone, Copy, PartialEq, Eq, Structural)]
pub enum Reply {
    /// The action was carried out.
    Done,
    /// The authentication stack rejected the user name and password.
    Rejected,
    /// The password database knows the user under these IDs.
    Resolved { uid: u32, gid: u32 },
    /// The path was opened; `is_dir` says whether it names a directory.
    Opened { is_dir: bool },
    /// A read returned this many bytes; none at the end of the file.
    Read(usize),
    /// The action failed.
    Failed(Fault),
}

/// How far a helper has come.
#[derive(Debug, Clone, Copy, PartialEq, Eq, Structural)]
pub enum Phase {
    Elevating,
    Authenticating,
    Resolving,
    SettingGroup { uid: u32, gid: u32 },
    ClearingGroups { uid: u32, gid: u32 },
    JoiningGroups { uid: u32, gid: u32 },
    SettingUser { uid: u32 },
    Probing,
    Listing,
    Emitting,
    Opening,
    Reading,
    Writing { len: usize },
    Exiting(ReturnCode),
    Aborting(Abort),
}

/// The state of a helper: what was asked of it and how far it has come.
#[derive(Debug, Clone, Copy, PartialEq, Eq, Structural)]
pub struct Session {
    /// What the request asks for.
    pub kind: Kind,
    /// Whether the superuser is refused and the change of identity probed.
    pub safeguard: bool,
    pub phase: Phase,
}

/// The user name of the superuser, `root`.
pub open spec fn root_name() -> Seq<u8> {
    seq![114u8, 111u8, 111u8, 116u8]
}

/// The phase in which a helper with its new identity turns to the path.
pub open spec fn payload_phase(kind: Kind) -> Phase {
    match kind {
        Kind::Dir => Phase::Listing,
        Kind::File => Phase::Opening,
    }
}

impl Action {
    /// Whether the action touches the requested path or standard output.
    pub open spec fn is_payload(self) -> bool {
        self == Action::ListDirectory || self == Action::WriteListing || self == Action::OpenFile
            || self == Action::ReadChunk || self is WriteChunk
    }
}

impl Session {
    /// The state a helper begins in.
    pub open spec fn spec_start(username: Seq<u8>, kind: Kind, safeguard: bool) -> Session {
        Session {
            kind,
            safeguard,
            phase: if safeguard && username == root_name() {
                Phase::Aborting(Abort::RootRefused)
            } else {
                Phase::Elevating
            },
        }
    }

    /// The action that is due in this state.
    pub open spec fn spec_action(self) -> Action {
        match self.phase {
            Phase::Elevating => Action::Elevate,
            Phase::Authenticating => Action::Authenticate,
            Phase::Resolving => Action::ResolveUser,
            Phase::SettingGroup { gid, .. } => Action::SetGroup { gid },
            Phase::ClearingGroups { .. } => Action::ClearGroups,
            Phase::JoiningGroups { gid, .. } => Action::InitGroups { gid },
            Phase::SettingUser { uid } => Action::SetUser { uid },
            Phase::Probing => Action::ProbeRoot,
            Phase::Listing => Action::ListDirectory,
            Phase::Emitting => Action::WriteListing,
            Phase::Opening => Action::OpenFile,
            Phase::Reading => Action::ReadChunk,
            Phase::Writing { len } => Action::WriteChunk { len },
            Phase::Exiting(code) => Action::Exit(code),
            Phase::Aborting(why) => Action::Abort(why),
        }
    }

    /// The phase after the action that was due ended with `reply`.
    pub open spec fn next_phase(self, reply: Reply) -> Phase {
        match self.phase {
            Phase::Elevating => match reply {
                Reply::Done => Phase::Authenticating,
                _ => Phase::Aborting(Abort::NotPrivileged),
            },
            Phase::Authenticating => match reply {
                Reply::Done => Phase::Resolving,
                Reply::Rejected => Phase::Exiting(ReturnCode::LoginFailed),
                _ => Phase::Aborting(Abort::AuthUnavailable),
            },
            Phase::Resolving => match reply {
                Reply::Resolved { uid, gid } => Phase::SettingGroup { uid, gid },
                _ => Phase::Aborting(Abort::SwitchFailed),
            },
            Phase::SettingGroup { uid, gid } => match reply {
                Reply::Done => Phase::ClearingGroups { uid, gid },
                _ => Phase::Aborting(Abort::SwitchFailed),
            },
            Phase::ClearingGroups { uid, gid } => match reply {
                Reply::Done => Phase::JoiningGroups { uid, gid },
                _ => Phase::Aborting(Abort::SwitchFailed),
            },
            Phase::JoiningGroups { uid, .. } => match reply {
                Reply::Done => Phase::SettingUser { uid },
                _ => Phase::Aborting(Abort::SwitchFailed),
            },
            Phase::SettingUser { .. } => match reply {
                Reply::Done => if self.safeguard {
                    Phase::Probing
                } else {
                    payload_phase(self.kind)
                },
                _ => Phase::Aborting(Abort::SwitchFailed),
            },
            Phase::Probing => match reply {
                Reply::Failed(_) => payload_phase(self.kind),
                _ => Phase::Aborting(Abort::StillPrivileged),
            },
            Phase::Listing => match reply {
                Reply::Done => Phase::Emitting,
                _ => Phase::Exiting(ReturnCode::FileNotFound),
            },
            Phase::Emitting => match reply {
                Reply::Done => Phase::Exiting(ReturnCode::Success),
                _ => Phase::Exiting(ReturnCode::FileNotFound),
            },
            Phase::Opening => match reply {
                Reply::Opened { is_dir } => if is_dir {
                    Phase::Exiting(ReturnCode::UnexpectedType)
                } else {
                    Phase::Reading
                },
                Reply::Failed(Fault::NotFound) => Phase::Exiting(ReturnCode::FileNotFound),
                Reply::Failed(Fault::PermissionDenied) => Phase::Exiting(
                    ReturnCode::PermissionDenied,
                ),
                _ => Phase::Exiting(ReturnCode::Unknown),
            },
            Phase::Reading => match reply {
                Reply::Read(len) => if len == 0 {
                    Phase::Exiting(ReturnCode::Success)
                } else {
                    Phase::Writing { len }
                },
                Reply::Failed(Fault::Interrupted) => Phase::Reading,
                _ => Phase::Aborting(Abort::ReadFailed),
            },
            Phase::Writing { len } => match reply {
                Reply::Done => Phase::Reading,
                Reply::Failed(Fault::Interrupted) => Phase::Writing { len },
                Reply::Failed(Fault::BrokenPipe) => Phase::Aborting(Abort::ClientLost),
                _ => Phase::Aborting(Abort::WriteFailed),
            },
            Phase::Exiting(code) => Phase::Exiting(code),
            Phase::Aborting(why) => Phase::Aborting(why),
        }
    }

    /// The state after the action that was due ended with `reply`.
    pub open spec fn spec_step(self, reply: Reply) -> Session {
        Session { kind: self.kind, safeguard: self.safeguard, phase: self.next_phase(reply) }
    }

    /// Whether the run is over: the action that is due ends the process.
    pub open spec fn spec_is_final(self) -> bool {
        self.phase is Exiting || self.phase is Aborting
    }

    /// The state a helper begins in, for a request of `kind` on behalf of
    /// `username`. With the safeguard on, the superuser is refused before
    /// anything else happens.
    pub fn start(username: &[u8], kind: Kind, safeguard: bool) -> (session: Session)
        ensures
            session == Session::spec_start(username@, kind, safeguard),
    {
        let refused = safeguard && is_root(username);
        Session {
            kind,
            safeguard,
            phase: if refused {
                Phase::Aborting(Abort::RootRefused)
            } else {
                Phase::Elevating
            },
        }
    }

    /// The action that is due in this state.
    pub fn action(&self) -> (action: Action)
        ensures
            action == self.spec_action(),
    {
        match self.phase {
            Phase::Elevating => Action::Elevate,
            Phase::Authenticating => Action::Authenticate,
            Phase::Resolving => Action::ResolveUser,
            Phase::SettingGroup { gid, .. } => Action::SetGroup { gid },
            Phase::ClearingGroups { .. } => Action::ClearGroups,
            Phase::JoiningGroups { gid, .. } => Action::InitGroups { gid },
            Phase::SettingUser { uid } => Action::SetUser { uid },
            Phase::Probing => Action::ProbeRoot,
            Phase::Listing => Action::ListDirectory,
            Phase::Emitting => Action::WriteListing,
            Phase::Opening => Action::OpenFile,
            Phase::Reading => Action::ReadChunk,
            Phase::Writing { len } => Action::WriteChunk { len },
            Phase::Exiting(code) => Action::Exit(code),
            Phase::Aborting(why) => Action::Abort(why),
        }
    }

    /// Whether the run is over.
    pub fn is_final(&self) -> (over: bool)
        ensures
            over == self.spec_is_final(),
    {
        match self.phase {
            Phase::Exiting(_) => true,
            Phase::Aborting(_) => true,
            _ => false,
        }
    }

    /// Takes the reply to the action that was due and moves on. A reply that
    /// the action cannot have counts as its failure.
    pub fn step(self, reply: Reply) -> (next: Session)
        ensures
            next == self.spec_step(reply),
    {
        let phase = match self.phase {
            Phase::Elevating => match reply {
                Reply::Done => Phase::Authenticating,
                _ => Phase::Aborting(Abort::NotPrivileged),
            },
            Phase::Authenticating => match reply {
                Reply::Done => Phase::Resolving,
                Reply::Rejected => Phase::Exiting(ReturnCode::LoginFailed),
                _ => Phase::Aborting(Abort::AuthUnavailable),
            },
            Phase::Resolving => match reply {
                Reply::Resolved { uid, gid } => Phase::SettingGroup { uid, gid },
                _ => Phase::Aborting(Abort::SwitchFailed),
            },
            Phase::SettingGroup { uid, gid } => match reply {
                Reply::Done => Phase::ClearingGroups { uid, gid },
                _ => Phase::Aborting(Abort::SwitchFailed),
            },
            Phase::ClearingGroups { uid, gid } => match reply {
                Reply::Done => Phase::JoiningGroups { uid, gid },
                _ => Phase::Aborting(Abort::SwitchFailed),
            },
            Phase::JoiningGroups { uid, .. } => match reply {
                Reply::Done => Phase::SettingUser { uid },
                _ => Phase::Aborting(Abort::SwitchFailed),
            },
            Phase::SettingUser { .. } => match reply {
                Reply::Done => {
                    if self.safeguard {
                        Phase::Probing
                    } else {
                        first_payload_phase(self.kind)
                    }
                },
                _ => Phase::Aborting(Abort::SwitchFailed),
            },
            Phase::Probing => match reply {
                Reply::Failed(_) => first_payload_phase(self.kind),
                _ => Phase::Aborting(Abort::StillPrivileged),
            },
            Phase::Listing => match reply {
                Reply::Done => Phase::Emitting,
                _ => Phase::Exiting(ReturnCode::FileNotFound),
            },
            Phase::Emitting => match reply {
                Reply::Done => Phase::Exiting(ReturnCode::Success),
                _ => Phase::Exiting(ReturnCode::FileNotFound),
            },
            Phase::Opening => match reply {
                Reply::Opened { is_dir } => {
                    if is_dir {
                        Phase::Exiting(ReturnCode::UnexpectedType)
                    } else {
                        Phase::Reading
                    }
                },
                Reply::Failed(Fault::NotFound) => Phase::Exiting(ReturnCode::FileNotFound),
                Reply::Failed(Fault::PermissionDenied) => Phase::Exiting(
                    ReturnCode::PermissionDenied,
                ),
                _ => Phase::Exiting(ReturnCode::Unknown),
            },
            Phase::Reading => match reply {
                Reply::Read(len) => {
                    if len == 0 {
                        Phase::Exiting(ReturnCode::Success)
                    } else {
                        Phase::Writing { len }
                    }
                },
                Reply::Failed(Fault::Interrupted) => Phase::Reading,
                _ => Phase::Aborting(Abort::ReadFailed),
            },
            Phase::Writing { len } => match reply {
                Reply::Done => Phase::Reading,
                Reply::Failed(Fault::Interrupted) => Phase::Writing { len },
                Reply::Failed(Fault::BrokenPipe) => Phase::Aborting(Abort::ClientLost),
                _ => Phase::Aborting(Abort::WriteFailed),
            },
            Phase::Exiting(code) => Phase::Exiting(code),
            Phase::Aborting(why) => Phase::Aborting(why),
        };
        Session { kind: self.kind, safeguard: self.safeguard, phase }
    }
}

/// Whether `username` is the name of the superuser, byte for byte.
pub fn is_root(username: &[u8]) -> (root: bool)
    ensures
        root == (username@ == root_name()),
{
    if username.len() == 4 && username[0] == 114u8 && username[1] == 111u8 && username[2] == 111u8
        && username[3] == 116u8 {
        assert(username@ =~= root_name());
        true
    } else {
        assert(username@ != root_name()) by {
            if username@ == root_name() {
                assert(root_name().len() == 4);
                assert(root_name()[0] == 114u8 && root_name()[1] == 111u8 && root_name()[2]
                    == 111u8 && root_name()[3] == 116u8);
            }
        }
        false
    }
}

fn first_payload_phase(kind: Kind) -> (phase: Phase)
    ensures
        phase == payload_phase(kind),
{
    match kind {
        Kind::Dir => Phase::Listing,
        Kind::File => Phase::Opening,
    }
}

/// A state that a helper can begin in.
pub open spec fn initial(session: Session) -> bool {
    session.phase == Phase::Elevating || session.phase == Phase::Aborting(Abort::RootRefused)
}

/// The state of a helper that began in `start` and whose actions so far
/// ended with `replies`, one after the other.
pub open spec fn run(start: Session, replies: Seq<Reply>) -> Session
    decreases replies.len(),
{
    if replies.len() == 0 {
        start
    } else {
        run(start, replies.drop_last()).spec_step(replies.last())
    }
}

/// The action a helper performs after `i` earlier ones.
pub open spec fn action_at(start: Session, replies: Seq<Reply>, i: int) -> Action {
    run(start, replies.take(i)).spec_action()
}

/// The first `n` actions of a run were the steps towards the user's
/// identity, in their order, and each succeeded: raise the privilege,
/// authenticate, look the user up, set the group, clear the supplementary
/// groups, set them anew, set the user, and with the safeguard on a failed
/// attempt to raise the privilege again.
pub open spec fn on_track(start: Session, replies: Seq<Reply>, n: int) -> bool {
    &&& n <= replies.len()
    &&& n >= 1 ==> action_at(start, replies, 0) == Action::Elevate && replies[0] == Reply::Done
    &&& n >= 2 ==> action_at(start, replies, 1) == Action::Authenticate && replies[1]
        == Reply::Done
    &&& n >= 3 ==> action_at(start, replies, 2) == Action::ResolveUser && replies[2] is Resolved
    &&& n >= 4 ==> action_at(start, replies, 3) == (Action::SetGroup { gid: replies[2]->gid })
        && replies[3] == Reply::Done
    &&& n >= 5 ==> action_at(start, replies, 4) == Action::ClearGroups && replies[4]
        == Reply::Done
    &&& n >= 6 ==> action_at(start, replies, 5) == (Action::InitGroups { gid: replies[2]->gid })
        && replies[5] == Reply::Done
    &&& n >= 7 ==> action_at(start, replies, 6) == (Action::SetUser { uid: replies[2]->uid })
        && replies[6] == Reply::Done
    &&& n >= 8 ==> action_at(start, replies, 7) == Action::ProbeRoot && replies[7] is Failed
}

/// The number of actions that lead up to the payload.
pub open spec fn lead(start: Session) -> int {
    if start.safeguard {
        8
    } else {
        7
    }
}

/// A run is extended by one step of the machine.
pub proof fn lemma_run_step(start: Session, replies: Seq<Reply>, i: int)
    requires
        0 <= i < replies.len(),
    ensures
        run(start, replies.take(i + 1)) == run(start, replies.take(i)).spec_step(replies[i]),
        run(start, replies.take(i)).kind == start.kind,
        run(start, replies.take(i)).safeguard == start.safeguard,
{
    assert(replies.take(i + 1).drop_last() =~= replies.take(i));
    lemma_run_keeps_request(start, replies.take(i));
}

proof fn lemma_run_keeps_request(start: Session, replies: Seq<Reply>)
    ensures
        run(start, replies).kind == start.kind,
        run(start, replies).safeguard == start.safeguard,
    decreases replies.len(),
{
    if replies.len() > 0 {
        lemma_run_keeps_request(start, replies.drop_last());
    }
}

spec fn trail(start: Session, replies: Seq<Reply>, i: int) -> bool {
    match run(start, replies.take(i)).phase {
        Phase::Elevating => i == 0,
        Phase::Authenticating => i == 1 && on_track(start, replies, 1),
        Phase::Resolving => i == 2 && on_track(start, replies, 2),
        Phase::SettingGroup { uid, gid } => i == 3 && on_track(start, replies, 3) && replies[2]
            == (Reply::Resolved { uid, gid }),
        Phase::ClearingGroups { uid, gid } => i == 4 && on_track(start, replies, 4) && replies[2]
            == (Reply::Resolved { uid, gid }),
        Phase::JoiningGroups { uid, gid } => i == 5 && on_track(start, replies, 5) && replies[2]
            == (Reply::Resolved { uid, gid }),
        Phase::SettingUser { uid } => i == 6 && on_track(start, replies, 6) && replies[2]->uid
            == uid,
        Phase::Probing => i == 7 && on_track(start, replies, 7) && start.safeguard,
        Phase::Exiting(_) => true,
        Phase::Aborting(_) => true,
        _ => i >= lead(start) && on_track(start, replies, lead(start)),
    }
}

proof fn lemma_trail(start: Session, replies: Seq<Reply>, i: int)
    requires
        initial(start),
        0 <= i <= replies.len(),
    ensures
        trail(start, replies, i),
    decreases i,
{
    if i == 0 {
        assert(replies.take(0) =~= Seq::<Reply>::empty());
    } else {
        lemma_trail(start, replies, i - 1);
        lemma_run_step(start, replies, i - 1);
    }
}

proof fn lemma_final_stays(start: Session, replies: Seq<Reply>, i: int, j: int)
    requires
        0 <= i <= j <= replies.len(),
        run(start, replies.take(i)).spec_is_final(),
    ensures
        run(start, replies.take(j)) == run(start, replies.take(i)),
    decreases j - i,
{
    if i < j {
        lemma_final_stays(start, replies, i, j - 1);
        lemma_run_step(start, replies, j - 1);
    }
}

/// Nothing is served before the user is who they claim to be: in every run,
/// an action that touches the path or standard output comes after all the
/// steps towards the user's identity, each of which succeeded, in their
/// order.
pub proof fn lemma_identity_before_payload(start: Session, replies: Seq<Reply>, i: int)
    requires
        initial(start),
        0 <= i <= replies.len(),
        action_at(start, replies, i).is_payload(),
    ensures
        i >= lead(start),
        on_track(start, replies, lead(start)),
{
    lemma_trail(start, replies, i);
}

/// Authentication is necessary: a run whose authentication does not succeed
/// never touches the path or standard output, and where the stack rejected
/// the user the helper leaves with `LoginFailed`.
pub proof fn lemma_authentication_necessary(
    start: Session,
    replies: Seq<Reply>,
    i: int,
    j: int,
)
    requires
        initial(start),
        0 <= i < replies.len(),
        0 <= j <= replies.len(),
        action_at(start, replies, i) == Action::Authenticate,
        replies[i] != Reply::Done,
    ensures
        !action_at(start, replies, j).is_payload(),
        replies[i] == Reply::Rejected && i < j ==> action_at(start, replies, j) == Action::Exit(
            ReturnCode::LoginFailed,
        ),
{
    lemma_trail(start, replies, i);
    lemma_trail(start, replies, j);
    lemma_run_step(start, replies, i);
    if i < j {
        lemma_final_stays(start, replies, i + 1, j);
    }
}

/// With the safeguard on, a request in the name of the superuser is given up
/// before any action is taken.
pub proof fn lemma_root_refused(kind: Kind, replies: Seq<Reply>, i: int)
    requires
        0 <= i <= replies.len(),
    ensures
        action_at(Session::spec_start(root_name(), kind, true), replies, i) == Action::Abort(
            Abort::RootRefused,
        ),
{
    let start = Session::spec_start(root_name(), kind, true);
    assert(replies.take(0) =~= Seq::<Reply>::empty());
    lemma_final_stays(start, replies, 0, i);
}

/// A run that is over stays as it is: the action that ends it is the last.
pub proof fn lemma_final_is_last(start: Session, replies: Seq<Reply>, i: int, j: int)
    requires
        0 <= i <= j <= replies.len(),
        run(start, replies.take(i)).spec_is_final(),
    ensures
        action_at(start, replies, j) == action_at(start, replies, i),
{
    lemma_final_stays(start, replies, i, j);
}

/// The answer to a question of the authentication stack: the user name to a
/// question whose answer may be shown, the password to one whose answer is a
/// secret. No terminal is asked.
pub fn reply_to<'a>(prompt: Prompt, username: &'a [u8], password: &'a [u8]) -> (reply: &'a [u8])
    ensures
        reply@ == match prompt {
            Prompt::Echo => username@,
            Prompt::Blind => password@,
        },
{
    match prompt {
        Prompt::Echo => username,
        Prompt::Blind => password,
    }
}

/// The line that standard error gets for a message of the authentication
/// stack.
pub fn notice_line(notice: Notice, text: &str) -> (line: String)
    ensures
        line@ == match notice {
            Notice::Info => "[PAM INFO] "@,
            Notice::Error => "[PAM ERROR] "@,
        } + text@,
{
    match notice {
        Notice::Info => String::from_str("[PAM INFO] ").concat(text),
        Notice::Error => String::from_str("[PAM ERROR] ").concat(text),
    }
}

} // verus!
