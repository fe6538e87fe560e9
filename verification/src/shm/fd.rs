//! The file descriptor behind a pool: which calls to make to get one, and what to make of their
//! replies.

use super::name::{shm_name, shm_name_at};
use vstd::prelude::*;

verus! {

/// An error number of the operating system.
#[derive(Clone, Copy, Debug, PartialEq, Eq, Structural)]
pub enum Errno {
    /// The call is not supported.
    ENOSYS,
    /// The object exists already.
    EEXIST,
    /// A signal came before the call was done.
    EINTR,
    /// Any other error, by its number.
    Other(i32),
}

/// What a call of the operating system gave.
#[derive(Clone, Copy, Debug, PartialEq, Eq)]
pub enum ShmReply {
    /// A new file descriptor, or the error instead of one.
    Fd(Result<i32, Errno>),
    /// The reply to a call that gives nothing but its success.
    Done(Result<(), Errno>),
    /// What the clock shows: the part of the time since the epoch that is less than a second.
    Clock { subsec_nanos: u32 },
}

/// A call of the operating system. Names of objects are of type `N`.
#[derive(Debug, PartialEq, Eq)]
pub enum ShmCall<N> {
    /// `memfd_create`
    CreateMemfd { name: N, allow_sealing: bool, close_on_exec: bool },
    /// `fcntl` with `F_ADD_SEALS`
    AddSeals { fd: i32, seal_shrink: bool, seal_seal: bool },
    /// The time of day
    ReadClock,
    /// `shm_open`
    ShmOpen {
        name: N,
        create: bool,
        exclusive: bool,
        read_write: bool,
        close_on_exec: bool,
        user_read: bool,
        user_write: bool,
    },
    /// `shm_unlink`
    ShmUnlink { name: N },
    /// `close`
    Close { fd: i32 },
    /// No further call: this is the file descriptor, or why there is none.
    Finished { result: Result<i32, Errno> },
}

impl View for ShmCall<String> {
    type V = ShmCall<Seq<char>>;

    open spec fn view(&self) -> ShmCall<Seq<char>> {
        match *self {
            ShmCall::CreateMemfd { name, allow_sealing, close_on_exec } => ShmCall::CreateMemfd {
                name: name@,
                allow_sealing,
                close_on_exec,
            },
            ShmCall::AddSeals { fd, seal_shrink, seal_seal } => ShmCall::AddSeals {
                fd,
                seal_shrink,
                seal_seal,
            },
            ShmCall::ReadClock => ShmCall::ReadClock,
            ShmCall::ShmOpen {
                name,
                create,
                exclusive,
                read_write,
                close_on_exec,
                user_read,
                user_write,
            } => ShmCall::ShmOpen {
                name: name@,
                create,
                exclusive,
                read_write,
                close_on_exec,
                user_read,
                user_write,
            },
            ShmCall::ShmUnlink { name } => ShmCall::ShmUnlink { name: name@ },
            ShmCall::Close { fd } => ShmCall::Close { fd },
            ShmCall::Finished { result } => ShmCall::Finished { result },
        }
    }
}

/// Getting an anonymous file: `memfd_create`, then seals.
#[derive(Clone, Copy, Debug, PartialEq, Eq)]
pub enum Memfd {
    /// The file is to be created.
    Create,
    /// The file is to be sealed against shrinking.
    Seal { fd: i32 },
    Finished { result: Result<i32, Errno> },
}

impl Memfd {
    /// The reply is of the kind that the next call gives.
    pub open spec fn expects(self, reply: ShmReply) -> bool {
        match self {
            Memfd::Create => reply is Fd,
            Memfd::Seal { .. } => reply is Done,
            Memfd::Finished { .. } => false,
        }
    }

    /// The call to make next.
    pub open spec fn call_spec(self) -> ShmCall<Seq<char>> {
        match self {
            Memfd::Create => ShmCall::CreateMemfd {
                name: "smithay-client-toolkit"@,
                allow_sealing: true,
                close_on_exec: true,
            },
            Memfd::Seal { fd } => ShmCall::AddSeals { fd, seal_shrink: true, seal_seal: true },
            Memfd::Finished { result } => ShmCall::Finished { result },
        }
    }

    /// Where the reply leads. A creation that a signal interrupted is tried again. The seals only
    /// serve optimization, so it does not matter whether they could be added.
    pub open spec fn next_spec(self, reply: ShmReply) -> Memfd {
        match (self, reply) {
            (Memfd::Create, ShmReply::Fd(Ok(fd))) => Memfd::Seal { fd },
            (Memfd::Create, ShmReply::Fd(Err(Errno::EINTR))) => Memfd::Create,
            (Memfd::Create, ShmReply::Fd(Err(errno))) => Memfd::Finished { result: Err(errno) },
            (Memfd::Seal { fd }, _) => Memfd::Finished { result: Ok(fd) },
            _ => self,
        }
    }

    /// The call to make next.
    pub fn call(&self) -> (call: ShmCall<String>)
        ensures
            call@ == self.call_spec(),
    {
        match *self {
            Memfd::Create => ShmCall::CreateMemfd {
                name: String::from_str("smithay-client-toolkit"),
                allow_sealing: true,
                close_on_exec: true,
            },
            // We only need to seal for the purposes of optimization, ignore the errors.
            Memfd::Seal { fd } => ShmCall::AddSeals { fd, seal_shrink: true, seal_seal: true },
            Memfd::Finished { result } => ShmCall::Finished { result },
        }
    }

    /// Takes in the reply to the call.
    pub fn next(self, reply: ShmReply) -> (next: Memfd)
        requires
            self.expects(reply),
        ensures
            next == self.next_spec(reply),
    {
        match (self, reply) {
            (Memfd::Create, ShmReply::Fd(Ok(fd))) => Memfd::Seal { fd },
            (Memfd::Create, ShmReply::Fd(Err(Errno::EINTR))) => Memfd::Create,
            (Memfd::Create, ShmReply::Fd(Err(errno))) => Memfd::Finished { result: Err(errno) },
            (Memfd::Seal { fd }, _) => Memfd::Finished { result: Ok(fd) },
            _ => self,
        }
    }
}

/// Getting the file descriptor of a pool: an anonymous file where there are such files, or else a
/// shared memory object whose name is taken away again at once. Names are of type `N`.
#[derive(Debug, PartialEq, Eq)]
pub enum ShmFd<N> {
    /// An anonymous file is being made.
    Memfd { memfd: Memfd },
    /// The time is needed, to make a name of it.
    Name,
    /// An object of this name is to be made.
    Open { name: N },
    /// The object is made, and its name is to be taken away.
    Unlink { name: N, fd: i32 },
    /// The name stayed, so the object is given up.
    Close { fd: i32, errno: Errno },
    Finished { result: Result<i32, Errno> },
}

impl View for ShmFd<String> {
    type V = ShmFd<Seq<char>>;

    open spec fn view(&self) -> ShmFd<Seq<char>> {
        match *self {
            ShmFd::Memfd { memfd } => ShmFd::Memfd { memfd },
            ShmFd::Name => ShmFd::Name,
            ShmFd::Open { name } => ShmFd::Open { name: name@ },
            ShmFd::Unlink { name, fd } => ShmFd::Unlink { name: name@, fd },
            ShmFd::Close { fd, errno } => ShmFd::Close { fd, errno },
            ShmFd::Finished { result } => ShmFd::Finished { result },
        }
    }
}

impl ShmFd<Seq<char>> {
    /// Where to start: only Linux has anonymous files.
    pub open spec fn initial(linux: bool) -> ShmFd<Seq<char>> {
        if linux {
            ShmFd::Memfd { memfd: Memfd::Create }
        } else {
            ShmFd::Name
        }
    }

    /// What follows on the making of an anonymous file: where the system does not support it, a
    /// shared memory object is made instead.
    pub open spec fn from_memfd(memfd: Memfd) -> ShmFd<Seq<char>> {
        match memfd {
            Memfd::Finished { result: Ok(fd) } => ShmFd::Finished { result: Ok(fd) },
            Memfd::Finished { result: Err(Errno::ENOSYS) } => ShmFd::Name,
            Memfd::Finished { result: Err(errno) } => ShmFd::Finished { result: Err(errno) },
            _ => ShmFd::Memfd { memfd },
        }
    }

    /// The reply is of the kind that the next call gives.
    pub open spec fn expects(self, reply: ShmReply) -> bool {
        match self {
            ShmFd::Memfd { memfd } => memfd.expects(reply),
            ShmFd::Name => reply is Clock,
            ShmFd::Open { .. } => reply is Fd,
            ShmFd::Unlink { .. } => reply is Done,
            ShmFd::Close { .. } => reply is Done,
            ShmFd::Finished { .. } => false,
        }
    }

    /// The call to make next.
    pub open spec fn call_spec(self) -> ShmCall<Seq<char>> {
        match self {
            ShmFd::Memfd { memfd } => memfd.call_spec(),
            ShmFd::Name => ShmCall::ReadClock,
            ShmFd::Open { name } => ShmCall::ShmOpen {
                name,
                create: true,
                exclusive: true,
                read_write: true,
                close_on_exec: true,
                user_read: true,
                user_write: true,
            },
            ShmFd::Unlink { name, .. } => ShmCall::ShmUnlink { name },
            ShmFd::Close { fd, .. } => ShmCall::Close { fd },
            ShmFd::Finished { result } => ShmCall::Finished { result },
        }
    }

    /// Where the reply leads.
    ///
    /// - A name that is taken is given up for a new one, and an interrupted attempt is repeated
    ///   under the same name.
    /// - An object whose name cannot be taken away is closed, and the error is that of the close
    ///   if it fails too.
    pub open spec fn next_spec(self, reply: ShmReply) -> ShmFd<Seq<char>> {
        match (self, reply) {
            (ShmFd::Memfd { memfd }, _) => ShmFd::from_memfd(memfd.next_spec(reply)),
            (ShmFd::Name, ShmReply::Clock { subsec_nanos }) => ShmFd::Open {
                name: shm_name_at(subsec_nanos),
            },
            (ShmFd::Open { name }, ShmReply::Fd(Ok(fd))) => ShmFd::Unlink { name, fd },
            (ShmFd::Open { .. }, ShmReply::Fd(Err(Errno::EEXIST))) => ShmFd::Name,
            (ShmFd::Open { name }, ShmReply::Fd(Err(Errno::EINTR))) => ShmFd::Open { name },
            (ShmFd::Open { .. }, ShmReply::Fd(Err(errno))) => ShmFd::Finished {
                result: Err(errno),
            },
            (ShmFd::Unlink { fd, .. }, ShmReply::Done(Ok(_))) => ShmFd::Finished {
                result: Ok(fd),
            },
            (ShmFd::Unlink { fd, .. }, ShmReply::Done(Err(errno))) => ShmFd::Close { fd, errno },
            (ShmFd::Close { errno, .. }, ShmReply::Done(Ok(_))) => ShmFd::Finished {
                result: Err(errno),
            },
            (ShmFd::Close { .. }, ShmReply::Done(Err(errno))) => ShmFd::Finished {
                result: Err(errno),
            },
            _ => self,
        }
    }
}

impl ShmFd<String> {
    /// Starts to get a file descriptor.
    pub fn new(linux: bool) -> (start: ShmFd<String>)
        ensures
            start@ == ShmFd::initial(linux),
    {
        if linux {
            ShmFd::Memfd { memfd: Memfd::Create }
        } else {
            ShmFd::Name
        }
    }

    /// The call to make next.
    pub fn call(&self) -> (call: ShmCall<String>)
        ensures
            call@ == self@.call_spec(),
    {
        match self {
            ShmFd::Memfd { memfd } => memfd.call(),
            ShmFd::Name => ShmCall::ReadClock,
            ShmFd::Open { name } => ShmCall::ShmOpen {
                name: name.clone(),
                create: true,
                exclusive: true,
                read_write: true,
                close_on_exec: true,
                user_read: true,
                user_write: true,
            },
            ShmFd::Unlink { name, .. } => ShmCall::ShmUnlink { name: name.clone() },
            ShmFd::Close { fd, .. } => ShmCall::Close { fd: *fd },
            ShmFd::Finished { result } => ShmCall::Finished { result: *result },
        }
    }

    /// Takes in the reply to the call.
    pub fn next(self, reply: ShmReply) -> (next: ShmFd<String>)
        requires
            self@.expects(reply),
        ensures
            next@ == self@.next_spec(reply),
    {
        match (self, reply) {
            (ShmFd::Memfd { memfd }, _) => match memfd.next(reply) {
                Memfd::Finished { result: Ok(fd) } => ShmFd::Finished { result: Ok(fd) },
                // Not supported, use fallback.
                Memfd::Finished { result: Err(Errno::ENOSYS) } => ShmFd::Name,
                Memfd::Finished { result: Err(errno) } => ShmFd::Finished { result: Err(errno) },
                memfd => ShmFd::Memfd { memfd },
            },
            (ShmFd::Name, ShmReply::Clock { subsec_nanos }) => ShmFd::Open {
                name: shm_name(subsec_nanos),
            },
            (ShmFd::Open { name }, ShmReply::Fd(Ok(fd))) => ShmFd::Unlink { name, fd },
            // Change the handle if we happen to be duplicate.
            (ShmFd::Open { .. }, ShmReply::Fd(Err(Errno::EEXIST))) => ShmFd::Name,
            (ShmFd::Open { name }, ShmReply::Fd(Err(Errno::EINTR))) => ShmFd::Open { name },
            (ShmFd::Open { .. }, ShmReply::Fd(Err(errno))) => ShmFd::Finished {
                result: Err(errno),
            },
            (ShmFd::Unlink { fd, .. }, ShmReply::Done(Ok(_))) => ShmFd::Finished {
                result: Ok(fd),
            },
            (ShmFd::Unlink { fd, .. }, ShmReply::Done(Err(errno))) => ShmFd::Close { fd, errno },
            (ShmFd::Close { errno, .. }, ShmReply::Done(Ok(_))) => ShmFd::Finished {
                result: Err(errno),
            },
            (ShmFd::Close { .. }, ShmReply::Done(Err(errno))) => ShmFd::Finished {
                result: Err(errno),
            },
            (other, _) => other,
        }
    }
}

/// Where a number of replies lead.
pub open spec fn run(start: ShmFd<Seq<char>>, replies: Seq<ShmReply>) -> ShmFd<Seq<char>>
    decreases replies.len(),
{
    if replies.len() == 0 {
        start
    } else {
        run(start, replies.drop_last()).next_spec(replies.last())
    }
}

/// Each reply is of the kind that the call before it gives.
pub open spec fn replies_fit(start: ShmFd<Seq<char>>, replies: Seq<ShmReply>) -> bool
    decreases replies.len(),
{
    replies.len() > 0 ==> {
        &&& replies_fit(start, replies.drop_last())
        &&& run(start, replies.drop_last()).expects(replies.last())
    }
}

/// The file descriptor that is open after a number of calls and their replies: the last one that a
/// reply brought, unless `close` has been called since.
pub open spec fn open_fd(start: ShmFd<Seq<char>>, replies: Seq<ShmReply>) -> Option<i32>
    decreases replies.len(),
{
    if replies.len() == 0 {
        None
    } else {
        let before = replies.drop_last();
        match (run(start, before).call_spec(), replies.last()) {
            (ShmCall::Close { .. }, _) => None,
            (_, ShmReply::Fd(Ok(fd))) => Some(fd),
            _ => open_fd(start, before),
        }
    }
}

/// The name that the clock gave last.
pub open spec fn last_name(replies: Seq<ShmReply>) -> Option<Seq<char>>
    decreases replies.len(),
{
    if replies.len() == 0 {
        None
    } else {
        match replies.last() {
            ShmReply::Clock { subsec_nanos } => Some(shm_name_at(subsec_nanos)),
            _ => last_name(replies.drop_last()),
        }
    }
}

/// The file descriptor that is kept while the next call is made, or is the result.
pub open spec fn kept_fd(state: ShmFd<Seq<char>>) -> Option<i32> {
    match state {
        ShmFd::Memfd { memfd: Memfd::Seal { fd } } => Some(fd),
        ShmFd::Unlink { fd, .. } => Some(fd),
        ShmFd::Close { fd, .. } => Some(fd),
        ShmFd::Finished { result: Ok(fd) } => Some(fd),
        _ => None,
    }
}

/// The making of an anonymous file is still under way.
spec fn memfd_unfinished(state: ShmFd<Seq<char>>) -> bool {
    match state {
        ShmFd::Memfd { memfd } => !(memfd is Finished),
        _ => true,
    }
}

proof fn lemma_memfd_unfinished(linux: bool, replies: Seq<ShmReply>)
    ensures
        memfd_unfinished(run(ShmFd::initial(linux), replies)),
    decreases replies.len(),
{
    if replies.len() > 0 {
        lemma_memfd_unfinished(linux, replies.drop_last());
    }
}

/// No file descriptor is lost: at each moment the open one is the one that is kept. So if the
/// result is a file descriptor, it is open and came from the system, and if it is an error, none
/// is open.
pub proof fn lemma_no_fd_is_lost(linux: bool, replies: Seq<ShmReply>)
    requires
        replies_fit(ShmFd::initial(linux), replies),
    ensures
        open_fd(ShmFd::initial(linux), replies) == kept_fd(run(ShmFd::initial(linux), replies)),
        match run(ShmFd::initial(linux), replies) {
            ShmFd::Finished { result: Ok(fd) } => {
                &&& open_fd(ShmFd::initial(linux), replies) == Some(fd)
                &&& replies.contains(ShmReply::Fd(Ok(fd)))
            },
            ShmFd::Finished { result: Err(_) } => open_fd(ShmFd::initial(linux), replies) is None,
            _ => true,
        },
    decreases replies.len(),
{
    lemma_kept_fd_came(linux, replies);
    if replies.len() > 0 {
        lemma_no_fd_is_lost(linux, replies.drop_last());
        lemma_memfd_unfinished(linux, replies.drop_last());
    }
}

proof fn lemma_kept_fd_came(linux: bool, replies: Seq<ShmReply>)
    requires
        replies_fit(ShmFd::initial(linux), replies),
    ensures
        kept_fd(run(ShmFd::initial(linux), replies)) matches Some(fd) ==> replies.contains(
            ShmReply::Fd(Ok(fd)),
        ),
    decreases replies.len(),
{
    if replies.len() > 0 {
        let before = replies.drop_last();
        lemma_kept_fd_came(linux, before);
        lemma_memfd_unfinished(linux, before);
        if let Some(fd) = kept_fd(run(ShmFd::initial(linux), replies)) {
            if replies.last() == ShmReply::Fd(Ok(fd)) {
                assert(replies[replies.len() - 1] == ShmReply::Fd(Ok(fd)));
            } else {
                assert(kept_fd(run(ShmFd::initial(linux), before)) == Some(fd));
                let i = choose|i: int|
                    0 <= i < before.len() && before[i] == ShmReply::Fd(Ok(fd));
                assert(replies[i] == before[i]);
            }
        }
    }
}

/// An object is made under the name that the clock gave last, and it is that name that is taken
/// away again.
pub proof fn lemma_name_is_the_last_one(linux: bool, replies: Seq<ShmReply>)
    requires
        replies_fit(ShmFd::initial(linux), replies),
    ensures
        match run(ShmFd::initial(linux), replies) {
            ShmFd::Open { name } => last_name(replies) == Some(name),
            ShmFd::Unlink { name, .. } => last_name(replies) == Some(name),
            _ => true,
        },
    decreases replies.len(),
{
    if replies.len() > 0 {
        lemma_name_is_the_last_one(linux, replies.drop_last());
    }
}

/// Signals do not matter: attempts that were interrupted, however many, leave everything as it
/// was.
pub proof fn lemma_interrupted_attempts_are_repeated(
    state: ShmFd<Seq<char>>,
    replies: Seq<ShmReply>,
)
    requires
        state == (ShmFd::<Seq<char>>::Memfd { memfd: Memfd::Create }) || state is Open,
        forall|i: int|
            0 <= i < replies.len() ==> #[trigger] replies[i] == ShmReply::Fd(Err(Errno::EINTR)),
    ensures
        run(state, replies) == state,
        replies_fit(state, replies),
    decreases replies.len(),
{
    if replies.len() > 0 {
        let before = replies.drop_last();
        assert forall|i: int| 0 <= i < before.len() implies #[trigger] before[i] == ShmReply::Fd(
            Err(Errno::EINTR),
        ) by {
            assert(replies[i] == before[i]);
        }
        assert(replies[replies.len() - 1] == ShmReply::Fd(Err(Errno::EINTR)));
        lemma_interrupted_attempts_are_repeated(state, before);
    }
}

/// The search for a file descriptor never ends because a name is taken, a signal came or the
/// system has no anonymous files: each of these is met by another attempt.
pub proof fn lemma_other_attempts_are_made(linux: bool, replies: Seq<ShmReply>, errno: Errno)
    requires
        replies_fit(
            ShmFd::initial(linux),
            replies.push(ShmReply::Fd(Err(errno))),
        ),
    ensures
        ({
            let before = run(ShmFd::initial(linux), replies);
            let after = run(ShmFd::initial(linux), replies.push(ShmReply::Fd(Err(errno))));
            &&& errno == Errno::EINTR ==> after == before
            &&& errno == Errno::EEXIST && before is Open ==> after == ShmFd::<Seq<char>>::Name
            &&& errno == Errno::ENOSYS && before is Memfd ==> after == ShmFd::<Seq<char>>::Name
            &&& errno is Other ==> after == (ShmFd::<Seq<char>>::Finished { result: Err(errno) })
        }),
{
    let all = replies.push(ShmReply::Fd(Err(errno)));
    assert(all.drop_last() =~= replies);
    lemma_memfd_unfinished(linux, replies);
}


} // verus!
