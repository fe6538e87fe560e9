//! A raw shared memory pool handler.
//!
//! This is intended as a building block for higher level shared memory pool abstractions and is not
//! encouraged for most library users.

use super::fd::{Memfd, ShmFd};
use crate::error::GlobalError;
use crate::wire::WEnum;
use vstd::prelude::*;

verus! {

/// The number that the server gets for a length: the lower 32 bits, as a signed number.
pub open spec fn wire_size(len: int) -> int {
    let low = len % 0x1_0000_0000;
    if low < 0x8000_0000 {
        low
    } else {
        low - 0x1_0000_0000
    }
}

fn to_wire_size(len: usize) -> (size: i32)
    ensures
        size == wire_size(len as int),
{
    let wide: u64 = len as u64;
    assert(wide % 0x1_0000_0000 < 0x8000_0000 ==> wide as i32 == wide % 0x1_0000_0000) by (bit_vector);
    assert(wide % 0x1_0000_0000 >= 0x8000_0000 ==> wide as i32 == wide % 0x1_0000_0000
        - 0x1_0000_0000) by (bit_vector);
    wide as i32
}

/// Why a pool could not be made. Errors of the operating system are of type `E`.
#[derive(Debug, PartialEq, Eq)]
pub enum CreatePoolError<E> {
    Global(GlobalError),
    Create(E),
}

/// A raw handler for file backed shared memory pools.
///
/// This pool does not release buffers. If you need this, use one of the higher level pools.
#[derive(Debug, PartialEq, Eq)]
pub struct RawPool {
    /// The size of the pool
    pub len: usize,
}

/// The format and the place of a buffer in its pool, as they are sent to the server. Formats are
/// of type `F`.
#[derive(Debug, PartialEq, Eq)]
pub struct CreateBuffer<F> {
    pub offset: i32,
    pub width: i32,
    pub height: i32,
    pub stride: i32,
    pub format: WEnum<F>,
}

/// A call towards a new pool.
#[derive(Clone, Copy, Debug, PartialEq, Eq)]
pub enum SetupCall {
    /// Get the shared memory global.
    BindShm,
    /// Get a file descriptor.
    CreateFd,
    /// Set the length of the file.
    SetFileLen { fd: i32, len: u64 },
    /// Ask the server to make a pool of the file.
    CreatePool { fd: i32, size: i32 },
    /// Map the whole file into memory.
    MapFile { fd: i32 },
    /// No further call.
    Finished,
}

/// What a call towards a new pool gave.
#[derive(Debug, PartialEq, Eq)]
pub enum SetupReply<E> {
    /// Of a call that gives a file descriptor
    Fd(Result<i32, E>),
    /// Of a call around a global of the server
    Global(Result<(), GlobalError>),
    /// Of any other call
    Io(Result<(), E>),
}

/// The making of a pool.
#[derive(Debug, PartialEq, Eq)]
pub enum Setup<E> {
    BindShm { len: usize },
    CreateFd { len: usize },
    SetFileLen { len: usize, fd: i32 },
    CreatePool { len: usize, fd: i32 },
    MapFile { len: usize, fd: i32 },
    Finished { result: Result<RawPool, CreatePoolError<E>> },
}

impl<E> Setup<E> {
    /// The reply is of the kind that the next call gives.
    pub open spec fn expects(self, reply: SetupReply<E>) -> bool {
        match self {
            Setup::BindShm { .. } => reply is Global,
            Setup::CreateFd { .. } => reply is Fd,
            Setup::SetFileLen { .. } => reply is Io,
            Setup::CreatePool { .. } => reply is Global,
            Setup::MapFile { .. } => reply is Io,
            Setup::Finished { .. } => false,
        }
    }

    /// The call to make next.
    pub open spec fn call_spec(self) -> SetupCall {
        match self {
            Setup::BindShm { .. } => SetupCall::BindShm,
            Setup::CreateFd { .. } => SetupCall::CreateFd,
            Setup::SetFileLen { len, fd } => SetupCall::SetFileLen { fd, len: len as u64 },
            Setup::CreatePool { len, fd } => SetupCall::CreatePool {
                fd,
                size: wire_size(len as int) as i32,
            },
            Setup::MapFile { fd, .. } => SetupCall::MapFile { fd },
            Setup::Finished { .. } => SetupCall::Finished,
        }
    }

    /// Where the reply leads. The first error is the result.
    pub open spec fn next_spec(self, reply: SetupReply<E>) -> Setup<E> {
        match (self, reply) {
            (_, SetupReply::Global(Err(error))) => Setup::Finished {
                result: Err(CreatePoolError::Global(error)),
            },
            (_, SetupReply::Fd(Err(error))) => Setup::Finished {
                result: Err(CreatePoolError::Create(error)),
            },
            (_, SetupReply::Io(Err(error))) => Setup::Finished {
                result: Err(CreatePoolError::Create(error)),
            },
            (Setup::BindShm { len }, _) => Setup::CreateFd { len },
            (Setup::CreateFd { len }, SetupReply::Fd(Ok(fd))) => Setup::SetFileLen { len, fd },
            (Setup::SetFileLen { len, fd }, _) => Setup::CreatePool { len, fd },
            (Setup::CreatePool { len, fd }, _) => Setup::MapFile { len, fd },
            (Setup::MapFile { len, .. }, _) => Setup::Finished { result: Ok(RawPool { len }) },
            _ => self,
        }
    }

    /// The call to make next.
    pub fn call(&self) -> (call: SetupCall)
        ensures
            call == self.call_spec(),
    {
        match *self {
            Setup::BindShm { .. } => SetupCall::BindShm,
            Setup::CreateFd { .. } => SetupCall::CreateFd,
            Setup::SetFileLen { len, fd } => SetupCall::SetFileLen { fd, len: len as u64 },
            Setup::CreatePool { len, fd } => SetupCall::CreatePool { fd, size: to_wire_size(len) },
            Setup::MapFile { fd, .. } => SetupCall::MapFile { fd },
            Setup::Finished { .. } => SetupCall::Finished,
        }
    }

    /// Takes in the reply to the call.
    pub fn next(self, reply: SetupReply<E>) -> (next: Setup<E>)
        requires
            self.expects(reply),
        ensures
            next == self.next_spec(reply),
    {
        match (self, reply) {
            (_, SetupReply::Global(Err(error))) => Setup::Finished {
                result: Err(CreatePoolError::Global(error)),
            },
            (_, SetupReply::Fd(Err(error))) => Setup::Finished {
                result: Err(CreatePoolError::Create(error)),
            },
            (_, SetupReply::Io(Err(error))) => Setup::Finished {
                result: Err(CreatePoolError::Create(error)),
            },
            (Setup::BindShm { len }, _) => Setup::CreateFd { len },
            (Setup::CreateFd { len }, SetupReply::Fd(Ok(fd))) => Setup::SetFileLen { len, fd },
            (Setup::SetFileLen { len, fd }, _) => Setup::CreatePool { len, fd },
            (Setup::CreatePool { len, fd }, _) => Setup::MapFile { len, fd },
            (Setup::MapFile { len, .. }, _) => Setup::Finished { result: Ok(RawPool { len }) },
            (other, _) => other,
        }
    }
}

/// A call towards a larger pool.
#[derive(Clone, Copy, Debug, PartialEq, Eq)]
pub enum ResizeCall {
    /// Set the length of the file.
    SetFileLen { len: u64 },
    /// Tell the server the new size.
    ResizePool { size: i32 },
    /// Map the whole file into memory, in place of the mapping so far.
    MapFile,
    /// No further call.
    Finished,
}

/// The resizing of a pool.
#[derive(Debug, PartialEq, Eq)]
pub enum Resize<E> {
    SetFileLen { size: usize },
    ResizePool { size: usize },
    MapFile,
    Finished { result: Result<(), E> },
}

/// The state in which the resizing of a pool starts.
pub open spec fn resize_start<E>(len: usize, size: usize) -> Resize<E> {
    if size > len {
        Resize::SetFileLen { size }
    } else {
        Resize::Finished { result: Ok(()) }
    }
}

impl<E> Resize<E> {
    /// The reply is of the kind that the next call gives. A message to the server has no reply and
    /// counts as done.
    pub open spec fn expects(self, reply: Result<(), E>) -> bool {
        match self {
            Resize::SetFileLen { .. } => true,
            Resize::ResizePool { .. } => reply is Ok,
            Resize::MapFile => true,
            Resize::Finished { .. } => false,
        }
    }

    /// The call to make next.
    pub open spec fn call_spec(self) -> ResizeCall {
        match self {
            Resize::SetFileLen { size } => ResizeCall::SetFileLen { len: size as u64 },
            Resize::ResizePool { size } => ResizeCall::ResizePool {
                size: wire_size(size as int) as i32,
            },
            Resize::MapFile => ResizeCall::MapFile,
            Resize::Finished { .. } => ResizeCall::Finished,
        }
    }

    /// Where the reply leads. The first error is the result.
    pub open spec fn next_spec(self, reply: Result<(), E>) -> Resize<E> {
        match (self, reply) {
            (_, Err(error)) => Resize::Finished { result: Err(error) },
            (Resize::SetFileLen { size }, Ok(_)) => Resize::ResizePool { size },
            (Resize::ResizePool { .. }, Ok(_)) => Resize::MapFile,
            (_, Ok(_)) => Resize::Finished { result: Ok(()) },
        }
    }

    /// The call to make next.
    pub fn call(&self) -> (call: ResizeCall)
        ensures
            call == self.call_spec(),
    {
        match *self {
            Resize::SetFileLen { size } => ResizeCall::SetFileLen { len: size as u64 },
            Resize::ResizePool { size } => ResizeCall::ResizePool { size: to_wire_size(size) },
            Resize::MapFile => ResizeCall::MapFile,
            Resize::Finished { .. } => ResizeCall::Finished,
        }
    }

    /// The length of the pool once the reply is there: the new one as soon as the file has it.
    pub open spec fn len_after(self, len: usize, reply: Result<(), E>) -> usize {
        match (self, reply) {
            (Resize::SetFileLen { size }, Ok(_)) => size,
            _ => len,
        }
    }

    /// Takes in the reply to the call, for the pool that is being resized.
    pub fn next(self, pool: &mut RawPool, reply: Result<(), E>) -> (next: Resize<E>)
        requires
            self.expects(reply),
        ensures
            next == self.next_spec(reply),
            final(pool).len == self.len_after(old(pool).len, reply),
    {
        match (self, reply) {
            (_, Err(error)) => Resize::Finished { result: Err(error) },
            (Resize::SetFileLen { size }, Ok(_)) => {
                pool.len = size;
                Resize::ResizePool { size }
            },
            (Resize::ResizePool { .. }, Ok(_)) => Resize::MapFile,
            (_, Ok(_)) => Resize::Finished { result: Ok(()) },
        }
    }
}

impl RawPool {
    /// Starts to make a pool of the given length.
    pub fn new<E>(len: usize) -> (setup: Setup<E>)
        ensures
            setup == (Setup::<E>::BindShm { len }),
    {
        Setup::BindShm { len }
    }

    /// Starts to resize the memory pool, notifying the server the pool has changed in size.
    ///
    /// The wl_shm protocol only allows the pool to be made bigger. If the new size is not larger
    /// than the current size of the pool, this does nothing.
    pub fn resize<E>(&self, size: usize) -> (resize: Resize<E>)
        ensures
            resize == resize_start::<E>(self.len, size),
    {
        if size > self.len {
            Resize::SetFileLen { size }
        } else {
            Resize::Finished { result: Ok(()) }
        }
    }

    /// Returns the size of the mempool
    pub fn len(&self) -> (len: usize)
        ensures
            len == self.len,
    {
        self.len
    }

    /// The request for a new buffer in this pool.
    ///
    /// ## Parameters
    /// - `offset`: the offset (in bytes) from the beginning of the pool at which this buffer starts.
    /// - `width` and `height`: the width and height of the buffer in pixels.
    /// - `stride`: distance (in bytes) between the beginning of a row and the next one.
    /// - `format`: the encoding format of the pixels.
    ///
    /// The encoding format of the pixels must be supported by the compositor or else a protocol
    /// error is risen.
    pub fn create_buffer<F>(
        &self,
        offset: i32,
        width: i32,
        height: i32,
        stride: i32,
        format: F,
    ) -> (request: CreateBuffer<F>)
        ensures
            request == (CreateBuffer {
                offset,
                width,
                height,
                stride,
                format: WEnum::Value(format),
            }),
    {
        CreateBuffer { offset, width, height, stride, format: WEnum::Value(format) }
    }

    /// The request for a new buffer in this pool.
    ///
    /// This is identical to [Self::create_buffer], for those who attach their own data to the
    /// buffer.
    pub fn create_buffer_raw<F>(
        &self,
        offset: i32,
        width: i32,
        height: i32,
        stride: i32,
        format: F,
    ) -> (request: CreateBuffer<F>)
        ensures
            request == (CreateBuffer {
                offset,
                width,
                height,
                stride,
                format: WEnum::Value(format),
            }),
    {
        self.create_buffer(offset, width, height, stride, format)
    }

    /// Starts to get the file descriptor of a pool.
    pub fn create_shm_fd(linux: bool) -> (start: ShmFd<String>)
        ensures
            start@ == ShmFd::initial(linux),
    {
        ShmFd::new(linux)
    }

    /// Starts to get the file descriptor of an anonymous file.
    pub fn create_memfd() -> (start: Memfd)
        ensures
            start == Memfd::Create,
    {
        Memfd::Create
    }
}

/// What has come of the calls for a pool.
pub struct Backing {
    /// The length of the file
    pub file_len: nat,
    /// The size that the server was told
    pub server_size: int,
    /// The length of the mapping
    pub mapped: nat,
}

impl Backing {
    /// No file, no pool at the server and no mapping.
    pub open spec fn none() -> Backing {
        Backing { file_len: 0, server_size: 0, mapped: 0 }
    }

    /// What has come of a call towards a new pool, with its reply. A call that fails changes
    /// nothing.
    pub open spec fn after_setup<E>(self, setup: Setup<E>, reply: SetupReply<E>) -> Backing {
        match (setup.call_spec(), reply) {
            (SetupCall::SetFileLen { len, .. }, SetupReply::Io(Ok(_))) => Backing {
                file_len: len as nat,
                ..self
            },
            (SetupCall::CreatePool { size, .. }, SetupReply::Global(Ok(_))) => Backing {
                server_size: size as int,
                ..self
            },
            (SetupCall::MapFile { .. }, SetupReply::Io(Ok(_))) => Backing {
                mapped: self.file_len,
                ..self
            },
            _ => self,
        }
    }

    /// What has come of a call towards a larger pool, with its reply. A call that fails changes
    /// nothing.
    pub open spec fn after_resize<E>(self, resize: Resize<E>, reply: Result<(), E>) -> Backing {
        match (resize.call_spec(), reply) {
            (ResizeCall::SetFileLen { len }, Ok(_)) => Backing { file_len: len as nat, ..self },
            (ResizeCall::ResizePool { size }, Ok(_)) => Backing {
                server_size: size as int,
                ..self
            },
            (ResizeCall::MapFile, Ok(_)) => Backing { mapped: self.file_len, ..self },
            _ => self,
        }
    }

    /// File, server and mapping all have the length.
    pub open spec fn has_len(self, len: int) -> bool {
        &&& self.file_len == len
        &&& self.server_size == wire_size(len)
        &&& self.mapped == len
    }

    /// The file has the length of the pool, and the mapping does not reach past its end.
    pub open spec fn within(self, len: int) -> bool {
        self.mapped <= self.file_len == len
    }
}

/// Where a number of replies lead on the way to a new pool, and what has come of the calls.
pub open spec fn run_setup<E>(len: usize, replies: Seq<SetupReply<E>>) -> (Setup<E>, Backing)
    decreases replies.len(),
{
    if replies.len() == 0 {
        (Setup::BindShm { len }, Backing::none())
    } else {
        let (setup, backing) = run_setup(len, replies.drop_last());
        (setup.next_spec(replies.last()), backing.after_setup(setup, replies.last()))
    }
}

/// Each reply is of the kind that the call before it gives.
pub open spec fn setup_replies_fit<E>(len: usize, replies: Seq<SetupReply<E>>) -> bool
    decreases replies.len(),
{
    replies.len() > 0 ==> {
        &&& setup_replies_fit(len, replies.drop_last())
        &&& run_setup(len, replies.drop_last()).0.expects(replies.last())
    }
}

/// Where a number of replies lead on the way to a larger pool, the length of the pool then, and
/// what has come of the calls.
pub open spec fn run_resize<E>(
    start: Resize<E>,
    len: usize,
    backing: Backing,
    replies: Seq<Result<(), E>>,
) -> (Resize<E>, usize, Backing)
    decreases replies.len(),
{
    if replies.len() == 0 {
        (start, len, backing)
    } else {
        let (resize, before_len, before) = run_resize(start, len, backing, replies.drop_last());
        (
            resize.next_spec(replies.last()),
            resize.len_after(before_len, replies.last()),
            before.after_resize(resize, replies.last()),
        )
    }
}

/// Where a number of replies lead on the way to a larger pool.
pub open spec fn resize_state<E>(start: Resize<E>, replies: Seq<Result<(), E>>) -> Resize<E>
    decreases replies.len(),
{
    if replies.len() == 0 {
        start
    } else {
        resize_state(start, replies.drop_last()).next_spec(replies.last())
    }
}

/// Each reply is of the kind that the call before it gives.
pub open spec fn resize_replies_fit<E>(start: Resize<E>, replies: Seq<Result<(), E>>) -> bool
    decreases replies.len(),
{
    replies.len() > 0 ==> {
        &&& resize_replies_fit(start, replies.drop_last())
        &&& resize_state(start, replies.drop_last()).expects(replies.last())
    }
}

/// The file got the new size: the first call of a resize, which sets it, was made and succeeded.
pub open spec fn size_reached<E>(replies: Seq<Result<(), E>>) -> bool {
    replies.len() > 0 && replies[0] is Ok
}

/// The server gets every length that it can count as it is.
pub proof fn lemma_wire_size_of_small(len: usize)
    requires
        len <= i32::MAX,
    ensures
        wire_size(len as int) == len,
{
}

/// A call towards a new pool failed.
pub open spec fn setup_failed<E>(reply: SetupReply<E>) -> bool {
    match reply {
        SetupReply::Fd(result) => result is Err,
        SetupReply::Global(result) => result is Err,
        SetupReply::Io(result) => result is Err,
    }
}

/// How far the calls have got, seen from the state that they led to.
spec fn setup_reached<E>(len: usize, setup: Setup<E>, backing: Backing) -> bool {
    match setup {
        Setup::BindShm { len: wanted } => wanted == len && backing == Backing::none(),
        Setup::CreateFd { len: wanted } => wanted == len && backing == Backing::none(),
        Setup::SetFileLen { len: wanted, .. } => wanted == len && backing == Backing::none(),
        Setup::CreatePool { len: wanted, .. } => wanted == len && backing == Backing {
            file_len: len as nat,
            ..Backing::none()
        },
        Setup::MapFile { len: wanted, .. } => wanted == len && backing == Backing {
            mapped: 0,
            file_len: len as nat,
            server_size: wire_size(len as int),
        },
        Setup::Finished { result: Ok(pool) } => pool.len == len && backing.has_len(len as int),
        Setup::Finished { result: Err(_) } => backing.mapped <= backing.file_len <= len,
    }
}

/// A pool that was made has the length asked for, and so have its file, its mapping and, as far as
/// the server can count, the pool of the server. Until then, and if the pool cannot be made, no
/// mapping reaches past the end of the file.
pub proof fn lemma_new_pool_has_its_len<E>(len: usize, replies: Seq<SetupReply<E>>)
    requires
        setup_replies_fit(len, replies),
    ensures
        run_setup(len, replies).1.mapped <= run_setup(len, replies).1.file_len <= len,
        run_setup(len, replies).0 matches Setup::Finished { result: Ok(pool) } ==> pool.len == len
            && run_setup(len, replies).1.has_len(len as int),
{
    lemma_setup_reached(len, replies);
}

proof fn lemma_setup_reached<E>(len: usize, replies: Seq<SetupReply<E>>)
    requires
        setup_replies_fit(len, replies),
    ensures
        setup_reached(len, run_setup(len, replies).0, run_setup(len, replies).1),
    decreases replies.len(),
{
    if replies.len() > 0 {
        lemma_setup_reached(len, replies.drop_last());
    }
}

/// The making of a pool ends with the first call that fails, with the error of that call, and it
/// succeeds only if all calls do.
pub proof fn lemma_setup_ends_with_the_first_error<E>(len: usize, replies: Seq<SetupReply<E>>)
    requires
        setup_replies_fit(len, replies),
    ensures
        forall|i: int|
            0 <= i < replies.len() - 1 ==> !setup_failed(#[trigger] replies[i]),
        match run_setup(len, replies).0 {
            Setup::Finished { result: Err(CreatePoolError::Global(error)) } => replies.len() > 0
                && replies.last() == SetupReply::<E>::Global(Err(error)),
            Setup::Finished { result: Err(CreatePoolError::Create(error)) } => replies.len() > 0
                && (replies.last() == SetupReply::Fd(Err(error)) || replies.last()
                == SetupReply::Io(Err(error))),
            _ => replies.len() > 0 ==> !setup_failed(replies.last()),
        },
    decreases replies.len(),
{
    if replies.len() > 0 {
        let before = replies.drop_last();
        lemma_setup_ends_with_the_first_error(len, before);
        assert forall|i: int| 0 <= i < replies.len() - 1 implies !setup_failed(
            #[trigger] replies[i],
        ) by {
            assert(replies[i] == before[i]);
            if i == before.len() - 1 {
                assert(before[i] == before.last());
            }
        }
    }
}

/// The file that is sized, handed to the server and mapped is the one whose descriptor the system
/// gave.
pub proof fn lemma_setup_uses_one_file<E>(len: usize, replies: Seq<SetupReply<E>>)
    requires
        setup_replies_fit(len, replies),
    ensures
        match run_setup(len, replies).0.call_spec() {
            SetupCall::SetFileLen { fd, .. } => replies.contains(SetupReply::Fd(Ok(fd))),
            SetupCall::CreatePool { fd, .. } => replies.contains(SetupReply::Fd(Ok(fd))),
            SetupCall::MapFile { fd } => replies.contains(SetupReply::Fd(Ok(fd))),
            _ => true,
        },
    decreases replies.len(),
{
    if replies.len() > 0 {
        let before = replies.drop_last();
        lemma_setup_uses_one_file(len, before);
        assert forall|fd: i32| #[trigger] before.contains(SetupReply::Fd(Ok(fd))) implies
            replies.contains(SetupReply::Fd(Ok(fd))) by {
            let i = choose|i: int|
                0 <= i < before.len() && before[i] == SetupReply::<E>::Fd(Ok(fd));
            assert(replies[i] == before[i]);
        }
        assert(replies[replies.len() - 1] == replies.last());
    }
}

/// How far the calls have got, seen from the state that they led to.
spec fn resize_reached<E>(
    size: usize,
    before: (usize, Backing),
    resize: Resize<E>,
    after: (usize, Backing),
    replies: Seq<Result<(), E>>,
) -> bool {
    let larger = Backing { file_len: size as nat, ..before.1 };
    let told = Backing { server_size: wire_size(size as int), ..larger };
    &&& size <= before.0 ==> replies.len() == 0 && resize == (Resize::<E>::Finished {
        result: Ok(()),
    }) && after == before
    &&& size > before.0 ==> match resize {
        Resize::SetFileLen { size: wanted } => wanted == size && replies.len() == 0 && after
            == before,
        Resize::ResizePool { size: wanted } => wanted == size && size_reached(replies) && after == (
            size,
            larger,
        ),
        Resize::MapFile => size_reached(replies) && after == (size, told),
        Resize::Finished { result: Ok(_) } => size_reached(replies) && after.0 == size
            && after.1.has_len(size as int),
        Resize::Finished { result: Err(_) } => if size_reached(replies) {
            after == (size, told)
        } else {
            after == before
        },
    }
}

proof fn lemma_resize_reached<E>(
    len: usize,
    size: usize,
    backing: Backing,
    replies: Seq<Result<(), E>>,
)
    requires
        resize_replies_fit(resize_start::<E>(len, size), replies),
    ensures
        ({
            let start = resize_start::<E>(len, size);
            let (resize, after_len, after) = run_resize(start, len, backing, replies);
            &&& resize == resize_state(start, replies)
            &&& resize_reached(size, (len, backing), resize, (after_len, after), replies)
        }),
    decreases replies.len(),
{
    if replies.len() > 0 {
        let before = replies.drop_last();
        lemma_resize_reached(len, size, backing, before);
        if before.len() > 0 {
            assert(replies[0] == before[0]);
        } else {
            assert(replies[0] == replies.last());
        }
    }
}

/// A pool that is resized, whatever comes of it, always has the length of its file, and its mapping
/// never reaches past the end of the file. Neither mapping nor pool become smaller.
pub proof fn lemma_mapping_stays_within_file<E>(
    len: usize,
    size: usize,
    backing: Backing,
    replies: Seq<Result<(), E>>,
)
    requires
        backing.within(len as int),
        resize_replies_fit(resize_start::<E>(len, size), replies),
    ensures
        ({
            let (_, after_len, after) = run_resize(
                resize_start(len, size),
                len,
                backing,
                replies,
            );
            &&& after.within(after_len as int)
            &&& after_len >= len
            &&& after.mapped >= backing.mapped
        }),
{
    lemma_resize_reached(len, size, backing, replies);
}

/// A pool that was made larger has the new size, and so have its file, its mapping and, as far as
/// the server can count, the pool of the server. To ask for a size that is not larger makes no
/// call and changes nothing.
pub proof fn lemma_resized_pool_has_its_size<E>(
    len: usize,
    size: usize,
    backing: Backing,
    replies: Seq<Result<(), E>>,
)
    requires
        resize_replies_fit(resize_start::<E>(len, size), replies),
    ensures
        ({
            let (resize, after_len, after) = run_resize(
                resize_start(len, size),
                len,
                backing,
                replies,
            );
            let done = Resize::<E>::Finished { result: Ok(()) };
            &&& size > len && resize == done ==> after_len == size && after.has_len(size as int)
            &&& size <= len ==> replies.len() == 0 && resize == done && after_len == len && after
                == backing
        }),
{
    lemma_resize_reached(len, size, backing, replies);
}

/// A pool whose file could not be made larger is as it was: its length, its file, its mapping and
/// the size that the server was told. To ask for the size again makes the same calls again.
pub proof fn lemma_failed_resize_can_be_repeated<E>(
    len: usize,
    size: usize,
    backing: Backing,
    error: E,
)
    requires
        size > len,
    ensures
        ({
            let start = resize_start::<E>(len, size);
            let (resize, after_len, after) = run_resize(start, len, backing, seq![Err(error)]);
            &&& resize == (Resize::<E>::Finished { result: Err(error) })
            &&& after_len == len
            &&& after == backing
            &&& resize_start::<E>(after_len, size) == start
        }),
{
    let replies = seq![Err::<(), E>(error)];
    assert(replies.drop_last() =~= Seq::empty());
    reveal_with_fuel(run_resize, 2);
}

/// The length of a pool and what has come of its calls, after a number of resizes, each with the
/// size asked for and the replies to its calls.
pub open spec fn run_resizes<E>(
    len: usize,
    backing: Backing,
    resizes: Seq<(usize, Seq<Result<(), E>>)>,
) -> (usize, Backing)
    decreases resizes.len(),
{
    if resizes.len() == 0 {
        (len, backing)
    } else {
        let (before_len, before) = run_resizes(len, backing, resizes.drop_last());
        let (size, replies) = resizes.last();
        let (_, after_len, after) = run_resize(
            resize_start(before_len, size),
            before_len,
            before,
            replies,
        );
        (after_len, after)
    }
}

/// Each reply to a call of the resizes is of the kind that the call gives.
pub open spec fn resizes_fit<E>(
    len: usize,
    backing: Backing,
    resizes: Seq<(usize, Seq<Result<(), E>>)>,
) -> bool
    decreases resizes.len(),
{
    resizes.len() > 0 ==> {
        &&& resizes_fit(len, backing, resizes.drop_last())
        &&& resize_replies_fit(
            resize_start::<E>(
                run_resizes(len, backing, resizes.drop_last()).0,
                resizes.last().0,
            ),
            resizes.last().1,
        )
    }
}

/// However often a pool is resized, and whatever calls fail, it always has the length of its file,
/// and no mapping ever reaches past the end of the file.
pub proof fn lemma_resizes_keep_mapping_within_file<E>(
    len: usize,
    backing: Backing,
    resizes: Seq<(usize, Seq<Result<(), E>>)>,
)
    requires
        backing.within(len as int),
        resizes_fit(len, backing, resizes),
    ensures
        run_resizes(len, backing, resizes).1.within(run_resizes(len, backing, resizes).0 as int),
        run_resizes(len, backing, resizes).1.mapped >= backing.mapped,
    decreases resizes.len(),
{
    if resizes.len() > 0 {
        let before = resizes.drop_last();
        lemma_resizes_keep_mapping_within_file(len, backing, before);
        let (before_len, before_backing) = run_resizes(len, backing, before);
        lemma_mapping_stays_within_file(
            before_len,
            resizes.last().0,
            before_backing,
            resizes.last().1,
        );
    }
}

/// The length of a pool is the maximum of the length that it was made with and the sizes that its
/// file reached: it is one of them, and none is larger. So a pool never shrinks.
pub proof fn lemma_len_is_the_largest_size_reached<E>(
    len: usize,
    backing: Backing,
    resizes: Seq<(usize, Seq<Result<(), E>>)>,
)
    requires
        resizes_fit(len, backing, resizes),
    ensures
        ({
            let after = run_resizes(len, backing, resizes).0;
            &&& after >= len
            &&& forall|i: int|
                0 <= i < resizes.len() && size_reached((#[trigger] resizes[i]).1) ==> after
                    >= resizes[i].0
            &&& after == len || exists|i: int|
                0 <= i < resizes.len() && size_reached((#[trigger] resizes[i]).1) && after
                    == resizes[i].0
        }),
    decreases resizes.len(),
{
    if resizes.len() > 0 {
        let before = resizes.drop_last();
        lemma_len_is_the_largest_size_reached(len, backing, before);
        let (before_len, before_backing) = run_resizes(len, backing, before);
        let (size, replies) = resizes.last();
        lemma_resize_reached(before_len, size, before_backing, replies);
        let after = run_resizes(len, backing, resizes).0;
        assert(resizes[resizes.len() - 1] == resizes.last());
        assert forall|i: int| 0 <= i < before.len() implies before[i] == #[trigger] resizes[i] by {}
        if after == before_len && after != len {
            let i = choose|i: int|
                0 <= i < before.len() && size_reached((#[trigger] before[i]).1) && before_len
                    == before[i].0;
            assert(size_reached(resizes[i].1) && after == resizes[i].0);
        }
    }
}

} // verus!
