//! What is asked of the system and the server for a pool, seen from the calls and their replies.

use super::fd::{
    lemma_name_is_the_last_one, lemma_no_fd_is_lost, last_name, open_fd, replies_fit, run, Errno,
    Memfd, ShmCall, ShmFd, ShmReply,
};
use super::name::{decimal, shm_name_at};
use super::raw::{
    resize_start, run_setup, setup_failed, setup_replies_fit, wire_size, CreateBuffer,
    CreatePoolError, RawPool, Resize, ResizeCall, Setup, SetupCall, SetupReply,
};
use crate::error::GlobalError;
use crate::wire::WEnum;
use vstd::prelude::*;

verus! {

/// The number that decimal digits stand for, read from left to right.
pub open spec fn value_of(digits: Seq<char>) -> int
    decreases digits.len(),
{
    if digits.len() == 0 {
        0
    } else {
        value_of(digits.drop_last()) * 10 + (digits.last() as int - '0' as int)
    }
}

/// A name is the prefix, and then the digits of a number, without a zero in front of others, that
/// read back as the nanoseconds.
pub proof fn lemma_name_reads_back(subsec_nanos: u32)
    ensures
        ({
            let name = shm_name_at(subsec_nanos);
            let prefix = "/smithay-client-toolkit-"@;
            let digits = name.skip(prefix.len() as int);
            &&& name.take(prefix.len() as int) == prefix
            &&& digits.len() > 0
            &&& forall|i: int| 0 <= i < digits.len() ==> '0' <= #[trigger] digits[i] <= '9'
            &&& digits.len() > 1 ==> digits[0] != '0'
            &&& value_of(digits) == subsec_nanos
        }),
{
    let prefix = "/smithay-client-toolkit-"@;
    let name = shm_name_at(subsec_nanos);
    assert(name.take(prefix.len() as int) =~= prefix);
    assert(name.skip(prefix.len() as int) =~= decimal(subsec_nanos as nat));
    lemma_decimal_reads_back(subsec_nanos as nat);
}

proof fn lemma_decimal_reads_back(value: nat)
    ensures
        ({
            let digits = decimal(value);
            &&& digits.len() > 0
            &&& forall|i: int| 0 <= i < digits.len() ==> '0' <= #[trigger] digits[i] <= '9'
            &&& value > 0 ==> digits[0] != '0'
            &&& digits.len() > 1 ==> value > 0
            &&& value_of(digits) == value
        }),
    decreases value,
{
    let digits = decimal(value);
    if value >= 10 {
        lemma_decimal_reads_back(value / 10);
        assert(digits.drop_last() =~= decimal(value / 10));
        assert(digits[0] == decimal(value / 10)[0]);
        assert forall|i: int| 0 <= i < digits.len() implies '0' <= #[trigger] digits[i] <= '9' by {
            if i < digits.len() - 1 {
                assert(digits[i] == decimal(value / 10)[i]);
            }
        }
    } else {
        assert(digits.drop_last() =~= Seq::empty());
        assert(value_of(Seq::<char>::empty()) == 0);
        assert(digits.last() == digits[0]);
    }
}

/// The server gets a number that it can count and that differs from the length by a multiple of
/// 2^32.
pub proof fn lemma_wire_size_is_congruent(len: int)
    requires
        len >= 0,
    ensures
        -0x8000_0000 <= wire_size(len) <= 0x7fff_ffff,
        (len - wire_size(len)) % 0x1_0000_0000 == 0,
{
}

/// A state and a call are seen as they are, with their names character by character.
pub proof fn lemma_shm_fd_is_seen_as_it_is(state: ShmFd<String>, call: ShmCall<String>)
    ensures
        state matches ShmFd::Memfd { memfd } ==> state@ == (ShmFd::<Seq<char>>::Memfd { memfd }),
        state is Name ==> state@ is Name,
        state matches ShmFd::Open { name } ==> state@ == (ShmFd::<Seq<char>>::Open { name: name@ }),
        state matches ShmFd::Unlink { name, fd } ==> state@ == (ShmFd::<Seq<char>>::Unlink {
            name: name@,
            fd,
        }),
        state matches ShmFd::Close { fd, errno } ==> state@ == (ShmFd::<Seq<char>>::Close {
            fd,
            errno,
        }),
        state matches ShmFd::Finished { result } ==> state@ == (ShmFd::<Seq<char>>::Finished {
            result,
        }),
        call matches ShmCall::CreateMemfd { name, allow_sealing, close_on_exec } ==> call@ == (
        ShmCall::<Seq<char>>::CreateMemfd { name: name@, allow_sealing, close_on_exec }),
        call matches ShmCall::AddSeals { fd, seal_shrink, seal_seal } ==> call@ == (ShmCall::<
            Seq<char>,
        >::AddSeals { fd, seal_shrink, seal_seal }),
        call is ReadClock ==> call@ is ReadClock,
        call is ShmOpen ==> {
            &&& call@ is ShmOpen
            &&& call@->ShmOpen_name == call->ShmOpen_name@
            &&& call@->create == call->create
            &&& call@->exclusive == call->exclusive
            &&& call@->read_write == call->read_write
            &&& call@->ShmOpen_close_on_exec == call->ShmOpen_close_on_exec
            &&& call@->user_read == call->user_read
            &&& call@->user_write == call->user_write
        },
        call matches ShmCall::ShmUnlink { name } ==> call@ == (ShmCall::<Seq<char>>::ShmUnlink {
            name: name@,
        }),
        call matches ShmCall::Close { fd } ==> call@ == (ShmCall::<Seq<char>>::Close { fd }),
        call matches ShmCall::Finished { result } ==> call@ == (ShmCall::<Seq<char>>::Finished {
            result,
        }),
{
}

/// On Linux an anonymous file comes first. Elsewhere the clock is read first.
pub proof fn lemma_first_call()
    ensures
        ShmFd::initial(true).call_spec() == Memfd::Create.call_spec(),
        Memfd::Create.call_spec() is CreateMemfd,
        ShmFd::initial(false).call_spec() is ReadClock,
{
}

/// Whatever came before: anonymous files bear the name of the toolkit, can be sealed and are not
/// inherited. They are sealed against shrinking and against other seals. Objects are made anew, for
/// reading and writing, by the user alone, and are not inherited.
pub proof fn lemma_arguments_of_calls(state: ShmFd<Seq<char>>)
    ensures
        ({
            let call = state.call_spec();
            &&& call is CreateMemfd ==> {
                &&& call->CreateMemfd_name == "smithay-client-toolkit"@
                &&& call->allow_sealing
                &&& call->CreateMemfd_close_on_exec
            }
            &&& call is AddSeals ==> call->seal_shrink && call->seal_seal
            &&& call is ShmOpen ==> {
                &&& call->create && call->exclusive && call->read_write
                &&& call->ShmOpen_close_on_exec
                &&& call->user_read && call->user_write
            }
        }),
{
}

/// Making an anonymous file alone takes the same calls as making it for a pool, and no others.
pub proof fn lemma_arguments_of_memfd_calls(memfd: Memfd)
    ensures
        memfd.call_spec() is CreateMemfd || memfd.call_spec() is AddSeals
            || memfd.call_spec() is Finished,
        (ShmFd::<Seq<char>>::Memfd { memfd }).call_spec() == memfd.call_spec(),
{
}

/// Every reply that a call can give is expected after it, and no other: a descriptor or an error
/// after the calls that make a file, the time after a look at the clock, success or an error after
/// the rest, and nothing after the end.
pub proof fn lemma_replies_that_are_expected(state: ShmFd<Seq<char>>, reply: ShmReply)
    ensures
        state.expects(reply) <==> match state.call_spec() {
            ShmCall::CreateMemfd { .. } => reply is Fd,
            ShmCall::ShmOpen { .. } => reply is Fd,
            ShmCall::ReadClock => reply is Clock,
            ShmCall::Finished { .. } => false,
            _ => reply is Done,
        },
        state matches ShmFd::Memfd { memfd } ==> (memfd.expects(reply) <==> state.expects(reply)),
{
}

/// What is called after an attempt at an anonymous file: the seals for it, and then it is the
/// result whether or not they could be added. An interrupted attempt is repeated. Without support
/// for such files the clock is read. Any other error is the result.
pub proof fn lemma_calls_after_memfd(state: ShmFd<Seq<char>>, reply: ShmReply)
    requires
        state.expects(reply),
    ensures
        ({
            let call = state.call_spec();
            let next = state.next_spec(reply).call_spec();
            &&& call is CreateMemfd ==> match reply->Fd_0 {
                Ok(fd) => next is AddSeals && next->AddSeals_fd == fd,
                Err(errno) => {
                    &&& errno == Errno::EINTR ==> next == call
                    &&& errno == Errno::ENOSYS ==> next is ReadClock
                    &&& errno != Errno::EINTR && errno != Errno::ENOSYS ==> next is Finished
                        && next->result == Err::<i32, Errno>(errno)
                },
            }
            &&& call is AddSeals ==> next is Finished && next->result == Ok::<i32, Errno>(
                call->AddSeals_fd,
            )
        }),
{
}

/// The anonymous file alone ends with any error but an interruption.
pub proof fn lemma_calls_of_memfd(memfd: Memfd, reply: ShmReply)
    requires
        memfd.expects(reply),
    ensures
        ({
            let call = memfd.call_spec();
            let next = memfd.next_spec(reply).call_spec();
            &&& call is CreateMemfd ==> match reply->Fd_0 {
                Ok(fd) => next is AddSeals && next->AddSeals_fd == fd && next->seal_shrink
                    && next->seal_seal,
                Err(errno) => if errno == Errno::EINTR {
                    next == call
                } else {
                    next is Finished && next->result == Err::<i32, Errno>(errno)
                },
            }
            &&& call is AddSeals ==> next is Finished && next->result == Ok::<i32, Errno>(
                call->AddSeals_fd,
            )
        }),
{
}

/// What is called after the clock and after an attempt at an object: the object gets the name of
/// the time, and then loses it. A taken name makes the clock be read again, an interruption makes
/// the attempt be repeated under the same name, and any other error is the result.
pub proof fn lemma_calls_after_the_clock_and_open(state: ShmFd<Seq<char>>, reply: ShmReply)
    requires
        state.expects(reply),
    ensures
        ({
            let call = state.call_spec();
            let next = state.next_spec(reply).call_spec();
            &&& call is ReadClock ==> next is ShmOpen && next->ShmOpen_name == shm_name_at(
                reply->subsec_nanos,
            )
            &&& call is ShmOpen ==> match reply->Fd_0 {
                Ok(_) => next is ShmUnlink && next->ShmUnlink_name == call->ShmOpen_name,
                Err(errno) => {
                    &&& errno == Errno::EINTR ==> next == call
                    &&& errno == Errno::EEXIST ==> next is ReadClock
                    &&& errno != Errno::EINTR && errno != Errno::EEXIST ==> next is Finished
                        && next->result == Err::<i32, Errno>(errno)
                },
            }
        }),
{
}

/// What becomes of an object once it is made: if its name can be taken away, its descriptor is the
/// result. If not, that descriptor is closed, and the result is the error, or that of the close.
pub proof fn lemma_calls_after_an_object_is_made(
    state: ShmFd<Seq<char>>,
    fd: i32,
    unlink: Errno,
    close: Errno,
)
    requires
        state.call_spec() is ShmOpen,
    ensures
        ({
            let made = state.next_spec(ShmReply::Fd(Ok(fd)));
            let unnamed = made.next_spec(ShmReply::Done(Ok(()))).call_spec();
            let named = made.next_spec(ShmReply::Done(Err(unlink)));
            let closed = named.next_spec(ShmReply::Done(Ok(()))).call_spec();
            let failed = named.next_spec(ShmReply::Done(Err(close))).call_spec();
            &&& made.call_spec() is ShmUnlink
            &&& unnamed is Finished && unnamed->result == Ok::<i32, Errno>(fd)
            &&& named.call_spec() is Close && named.call_spec()->Close_fd == fd
            &&& closed is Finished && closed->result == Err::<i32, Errno>(unlink)
            &&& failed is Finished && failed->result == Err::<i32, Errno>(close)
        }),
{
}

/// Over any replies, seen from the calls: a descriptor that is handed out is the open one, which a
/// reply brought. So is one that is to be sealed or closed. If an error is handed out, no
/// descriptor is open, and a reply brought the error.
pub proof fn lemma_calls_lose_no_fd(linux: bool, replies: Seq<ShmReply>)
    requires
        replies_fit(ShmFd::initial(linux), replies),
    ensures
        ({
            let call = run(ShmFd::initial(linux), replies).call_spec();
            let open = open_fd(ShmFd::initial(linux), replies);
            &&& call is Finished ==> match call->result {
                Ok(fd) => open == Some(fd) && replies.contains(ShmReply::Fd(Ok(fd))),
                Err(errno) => open is None && (replies.contains(ShmReply::Fd(Err(errno)))
                    || replies.contains(ShmReply::Done(Err(errno)))),
            }
            &&& call is AddSeals ==> open == Some(call->AddSeals_fd)
            &&& call is Close ==> open == Some(call->Close_fd)
            &&& call is ShmUnlink ==> open is Some
            &&& call is CreateMemfd || call is ReadClock || call is ShmOpen ==> open is None
        }),
{
    lemma_no_fd_is_lost(linux, replies);
    lemma_errors_come_from_replies(linux, replies);
}

proof fn lemma_errors_come_from_replies(linux: bool, replies: Seq<ShmReply>)
    requires
        replies_fit(ShmFd::initial(linux), replies),
    ensures
        ({
            let state = run(ShmFd::initial(linux), replies);
            &&& state matches ShmFd::Memfd { memfd } ==> !(memfd is Finished)
            &&& state matches ShmFd::Finished { result: Err(errno) } ==> (replies.contains(
                ShmReply::Fd(Err(errno)),
            ) || replies.contains(ShmReply::Done(Err(errno))))
            &&& state matches ShmFd::Close { errno, .. } ==> replies.contains(
                ShmReply::Done(Err(errno)),
            )
        }),
    decreases replies.len(),
{
    if replies.len() > 0 {
        let before = replies.drop_last();
        lemma_errors_come_from_replies(linux, before);
        assert(replies[replies.len() - 1] == replies.last());
        assert forall|reply: ShmReply| #[trigger] before.contains(reply) implies replies.contains(
            reply,
        ) by {
            let i = choose|i: int| 0 <= i < before.len() && before[i] == reply;
            assert(replies[i] == before[i]);
        }
    }
}

/// The call that ends the search hands out just the result that was found, whatever it is.
pub proof fn lemma_result_is_handed_out(
    state: ShmFd<String>,
    result: Result<i32, Errno>,
    call: ShmCall<String>,
)
    requires
        state == (ShmFd::<String>::Finished { result }),
        call_ensures(ShmFd::<String>::call, (&state,), call),
    ensures
        call == (ShmCall::<String>::Finished { result }),
{
}

/// Over any replies, seen from the calls: the name of an object that is made or unnamed is the one
/// that the clock gave last.
pub proof fn lemma_calls_use_the_last_name(linux: bool, replies: Seq<ShmReply>)
    requires
        replies_fit(ShmFd::initial(linux), replies),
    ensures
        ({
            let call = run(ShmFd::initial(linux), replies).call_spec();
            &&& call is ShmOpen ==> last_name(replies) == Some(call->ShmOpen_name)
            &&& call is ShmUnlink ==> last_name(replies) == Some(call->ShmUnlink_name)
        }),
{
    lemma_name_is_the_last_one(linux, replies);
}

/// Every reply that a call towards a new pool can give is expected after it, and no other.
pub proof fn lemma_setup_replies_that_are_expected<E>(setup: Setup<E>, reply: SetupReply<E>)
    ensures
        setup.expects(reply) <==> match setup.call_spec() {
            SetupCall::BindShm => reply is Global,
            SetupCall::CreateFd => reply is Fd,
            SetupCall::SetFileLen { .. } => reply is Io,
            SetupCall::CreatePool { .. } => reply is Global,
            SetupCall::MapFile { .. } => reply is Io,
            SetupCall::Finished => false,
        },
{
}

/// If no call fails, a pool of the length asked for comes out after exactly five calls, whatever
/// the length and whatever descriptor the system gives: the global is bound, the file is made, it
/// is given the length, handed to the server and mapped.
pub proof fn lemma_pool_is_made_in_five_calls<E>(len: usize, replies: Seq<SetupReply<E>>)
    requires
        setup_replies_fit(len, replies),
        forall|i: int| 0 <= i < replies.len() ==> !setup_failed(#[trigger] replies[i]),
    ensures
        ({
            let setup = run_setup(len, replies).0;
            let call = setup.call_spec();
            let done = replies.len();
            let fd = replies[1]->Fd_0->Ok_0;
            &&& done <= 5
            &&& done == 0 ==> call is BindShm
            &&& done == 1 ==> call is CreateFd
            &&& done >= 2 ==> replies[1] == SetupReply::<E>::Fd(Ok(fd))
            &&& done == 2 ==> {
                &&& call is SetFileLen
                &&& call->SetFileLen_fd == fd
                &&& call->len == len
            }
            &&& done == 3 ==> {
                &&& call is CreatePool
                &&& call->CreatePool_fd == fd
                &&& -0x8000_0000 <= call->size <= 0x7fff_ffff
                &&& (len - call->size) % 0x1_0000_0000 == 0
            }
            &&& done == 4 ==> call is MapFile && call->MapFile_fd == fd
            &&& done == 5 ==> call is Finished && setup is Finished && (setup->result matches Ok(
                pool,
            ) && pool.len == len)
        }),
{
    lemma_setup_is_where_it_was_left(len, replies);
    lemma_wire_size_is_congruent(len as int);
}

/// After so many calls that did not fail, this is what there is to do.
proof fn lemma_setup_is_where_it_was_left<E>(len: usize, replies: Seq<SetupReply<E>>)
    requires
        setup_replies_fit(len, replies),
        forall|i: int| 0 <= i < replies.len() ==> !setup_failed(#[trigger] replies[i]),
    ensures
        ({
            let setup = run_setup(len, replies).0;
            let fd = replies[1]->Fd_0->Ok_0;
            &&& replies.len() <= 5
            &&& replies.len() == 0 ==> setup == (Setup::<E>::BindShm { len })
            &&& replies.len() == 1 ==> setup == (Setup::<E>::CreateFd { len })
            &&& replies.len() >= 2 ==> replies[1] == SetupReply::<E>::Fd(Ok(fd))
            &&& replies.len() == 2 ==> setup == (Setup::<E>::SetFileLen { len, fd })
            &&& replies.len() == 3 ==> setup == (Setup::<E>::CreatePool { len, fd })
            &&& replies.len() == 4 ==> setup == (Setup::<E>::MapFile { len, fd })
            &&& replies.len() == 5 ==> setup == (Setup::<E>::Finished {
                result: Ok(RawPool { len }),
            })
        }),
    decreases replies.len(),
{
    if replies.len() > 0 {
        let before = replies.drop_last();
        assert forall|i: int| 0 <= i < before.len() implies !setup_failed(#[trigger] before[i]) by {
            assert(before[i] == replies[i]);
        }
        lemma_setup_is_where_it_was_left(len, before);
        assert(!setup_failed(replies[replies.len() - 1]));
        assert(replies[replies.len() - 1] == replies.last());
        if before.len() >= 2 {
            assert(before[1] == replies[1]);
        }
    }
}

/// Any length and any descriptor lead through the five calls: each success is expected where it
/// comes, and the last one ends with a pool of that length.
pub proof fn lemma_five_successes_make_a_pool<E>(len: usize, fd: i32)
    ensures
        ({
            let global = SetupReply::<E>::Global(Ok(()));
            let file = SetupReply::<E>::Fd(Ok(fd));
            let io = SetupReply::<E>::Io(Ok(()));
            let bind = Setup::<E>::BindShm { len };
            let create = bind.next_spec(global);
            let size = create.next_spec(file);
            let pool = size.next_spec(io);
            let map = pool.next_spec(global);
            let made = map.next_spec(io);
            &&& bind.call_spec() is BindShm && bind.expects(global)
            &&& create.call_spec() is CreateFd && create.expects(file)
            &&& size.call_spec() is SetFileLen && size.expects(io)
            &&& pool.call_spec() is CreatePool && pool.expects(global)
            &&& map.call_spec() is MapFile && map.expects(io)
            &&& made.call_spec() is Finished
            &&& made is Finished && made->result == Ok::<RawPool, CreatePoolError<E>>(
                RawPool { len },
            )
        }),
{
}

/// A call that fails ends the making of a pool with its own error, whatever came before.
pub proof fn lemma_failed_call_ends_the_setup<E>(setup: Setup<E>, error: E, global: GlobalError)
    ensures
        ({
            let failed = |reply: SetupReply<E>| setup.next_spec(reply);
            let create = Setup::<E>::Finished { result: Err(CreatePoolError::Create(error)) };
            let bind = Setup::<E>::Finished { result: Err(CreatePoolError::Global(global)) };
            &&& setup.call_spec() is CreateFd ==> failed(SetupReply::Fd(Err(error))) == create
            &&& setup.call_spec() is SetFileLen || setup.call_spec() is MapFile ==> failed(
                SetupReply::Io(Err(error)),
            ) == create
            &&& setup.call_spec() is BindShm || setup.call_spec() is CreatePool ==> failed(
                SetupReply::Global(Err(global)),
            ) == bind
        }),
{
}

/// A size that is larger starts with the call for the file, any other one is done at once.
pub proof fn lemma_resize_starts_only_to_grow<E>(len: usize, size: usize)
    ensures
        ({
            let start = resize_start::<E>(len, size);
            &&& size > len ==> start.call_spec() is SetFileLen && start.call_spec()->len == size
            &&& size <= len ==> start.call_spec() is Finished && start is Finished
                && start->result is Ok
        }),
{
}

/// Every reply that a call towards a larger pool can give is expected after it. The message to the
/// server always counts as sent.
pub proof fn lemma_resize_replies_that_are_expected<E>(resize: Resize<E>, reply: Result<(), E>)
    ensures
        resize.expects(reply) <==> match resize.call_spec() {
            ResizeCall::SetFileLen { .. } => true,
            ResizeCall::ResizePool { .. } => reply is Ok,
            ResizeCall::MapFile => true,
            ResizeCall::Finished => false,
        },
{
}

/// If no call fails, a pool grows in exactly three calls, whatever the size: the file is given the
/// size, the server is told, and the file is mapped. The pool has the new size from the first one
/// on.
pub proof fn lemma_pool_grows_in_three_calls<E>(len: usize, size: usize)
    requires
        size > len,
    ensures
        ({
            let done = Ok::<(), E>(());
            let sized = resize_start::<E>(len, size);
            let told = sized.next_spec(done);
            let mapped = told.next_spec(done);
            let finished = mapped.next_spec(done);
            &&& sized.call_spec() is SetFileLen && sized.call_spec()->len == size
            &&& told.call_spec() is ResizePool
            &&& -0x8000_0000 <= told.call_spec()->size <= 0x7fff_ffff
            &&& (size - told.call_spec()->size) % 0x1_0000_0000 == 0
            &&& mapped.call_spec() is MapFile
            &&& finished.call_spec() is Finished
            &&& finished is Finished && finished->result is Ok
            &&& sized.len_after(len, done) == size
            &&& told.len_after(size, done) == size
            &&& mapped.len_after(size, done) == size
        }),
{
    lemma_wire_size_is_congruent(size as int);
}

/// A call that fails ends the resizing with its own error, whatever came before, and leaves the
/// length of the pool as it is. Only the call for the file changes the length.
pub proof fn lemma_failed_call_ends_the_resize<E>(resize: Resize<E>, len: usize, error: E)
    ensures
        ({
            let failed = resize.next_spec(Err(error));
            &&& failed is Finished && failed->result == Err::<(), E>(error)
            &&& resize.len_after(len, Err(error)) == len
            &&& !(resize.call_spec() is SetFileLen) ==> resize.len_after(len, Ok(())) == len
            &&& resize.call_spec() is SetFileLen ==> resize.len_after(len, Ok(()))
                == resize.call_spec()->len
        }),
{
}

/// The server is asked for a buffer just as it was described, in one way as in the other.
pub proof fn lemma_buffer_is_as_described<F>(
    pool: RawPool,
    offset: i32,
    size: (i32, i32),
    stride: i32,
    format: F,
    request: CreateBuffer<F>,
)
    requires
        call_ensures(
            RawPool::create_buffer::<F>,
            (&pool, offset, size.0, size.1, stride, format),
            request,
        ) || call_ensures(
            RawPool::create_buffer_raw::<F>,
            (&pool, offset, size.0, size.1, stride, format),
            request,
        ),
    ensures
        request.offset == offset,
        (request.width, request.height) == size,
        request.stride == stride,
        request.format == WEnum::Value(format),
{
}

/// The making of a pool starts with the first of its calls and with the length asked for, and a
/// pool tells the length that it has.
pub proof fn lemma_pool_tells_its_len<E>(len: usize, setup: Setup<E>, pool: RawPool, told: usize)
    requires
        call_ensures(RawPool::new::<E>, (len,), setup),
        call_ensures(RawPool::len, (&pool,), told),
    ensures
        setup == (Setup::<E>::BindShm { len }),
        told == pool.len,
{
}

} // verus!
