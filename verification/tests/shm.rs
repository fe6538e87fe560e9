use smithay_client_toolkit::error::GlobalError;
use smithay_client_toolkit::shm::fd::{Errno, Memfd, ShmCall, ShmFd, ShmReply};
use smithay_client_toolkit::shm::name::shm_name;
use smithay_client_toolkit::shm::raw::{
    CreateBuffer, CreatePoolError, RawPool, Resize, ResizeCall, Setup, SetupCall, SetupReply,
};
use smithay_client_toolkit::wire::WEnum;

#[test]
fn names_hold_the_nanoseconds() {
    assert_eq!(shm_name(0), "/smithay-client-toolkit-0");
    assert_eq!(shm_name(9), "/smithay-client-toolkit-9");
    assert_eq!(shm_name(10), "/smithay-client-toolkit-10");
    assert_eq!(shm_name(999_999_999), "/smithay-client-toolkit-999999999");
    assert_eq!(shm_name(1_234_567_890), "/smithay-client-toolkit-1234567890");
    assert_eq!(shm_name(u32::MAX), format!("/smithay-client-toolkit-{}", u32::MAX));
}

#[test]
fn memfd_is_sealed() {
    let memfd = RawPool::create_memfd();
    assert_eq!(
        memfd.call(),
        ShmCall::CreateMemfd {
            name: "smithay-client-toolkit".to_string(),
            allow_sealing: true,
            close_on_exec: true
        }
    );
    let memfd = memfd.next(ShmReply::Fd(Err(Errno::EINTR)));
    assert_eq!(memfd, Memfd::Create);
    let memfd = memfd.next(ShmReply::Fd(Ok(5)));
    assert_eq!(memfd.call(), ShmCall::AddSeals { fd: 5, seal_shrink: true, seal_seal: true });
    // It does not matter whether the seals could be added.
    assert_eq!(
        memfd.next(ShmReply::Done(Err(Errno::Other(1)))).call(),
        ShmCall::Finished { result: Ok(5) }
    );
    assert_eq!(
        memfd.next(ShmReply::Done(Ok(()))).call(),
        ShmCall::Finished { result: Ok(5) }
    );
}

#[test]
fn memfd_is_tried_first_on_linux() {
    let fd = RawPool::create_shm_fd(true);
    assert!(matches!(fd.call(), ShmCall::CreateMemfd { .. }));
    let fd = fd.next(ShmReply::Fd(Ok(3)));
    assert!(matches!(fd.call(), ShmCall::AddSeals { fd: 3, .. }));
    let fd = fd.next(ShmReply::Done(Ok(())));
    assert_eq!(fd.call(), ShmCall::Finished { result: Ok(3) });
    assert_eq!(RawPool::create_shm_fd(false).call(), ShmCall::ReadClock);
}

#[test]
fn memfd_errors() {
    let fd = RawPool::create_shm_fd(true).next(ShmReply::Fd(Err(Errno::Other(24))));
    assert_eq!(fd.call(), ShmCall::Finished { result: Err(Errno::Other(24)) });
    let fd = RawPool::create_shm_fd(true).next(ShmReply::Fd(Err(Errno::EEXIST)));
    assert_eq!(fd.call(), ShmCall::Finished { result: Err(Errno::EEXIST) });
    let fd = RawPool::create_shm_fd(true).next(ShmReply::Fd(Err(Errno::ENOSYS)));
    assert_eq!(fd.call(), ShmCall::ReadClock);
}

#[test]
fn shm_object_is_opened_and_unlinked() {
    let fd = RawPool::create_shm_fd(false).next(ShmReply::Clock { subsec_nanos: 42 });
    let open = |nanos: u32| ShmCall::ShmOpen {
        name: shm_name(nanos),
        create: true,
        exclusive: true,
        read_write: true,
        close_on_exec: true,
        user_read: true,
        user_write: true,
    };
    assert_eq!(fd.call(), open(42));
    // Interrupted: the same name again.
    let fd = fd.next(ShmReply::Fd(Err(Errno::EINTR)));
    assert_eq!(fd.call(), open(42));
    // Taken: another name.
    let fd = fd.next(ShmReply::Fd(Err(Errno::EEXIST)));
    assert_eq!(fd.call(), ShmCall::ReadClock);
    let fd = fd.next(ShmReply::Clock { subsec_nanos: 43 });
    assert_eq!(fd.call(), open(43));
    let fd = fd.next(ShmReply::Fd(Ok(8)));
    assert_eq!(fd.call(), ShmCall::ShmUnlink { name: shm_name(43) });
    let fd = fd.next(ShmReply::Done(Ok(())));
    assert_eq!(fd.call(), ShmCall::Finished { result: Ok(8) });
}

#[test]
fn shm_object_errors() {
    let opened = || RawPool::create_shm_fd(false).next(ShmReply::Clock { subsec_nanos: 1 });
    let fd = opened().next(ShmReply::Fd(Err(Errno::Other(13))));
    assert_eq!(fd.call(), ShmCall::Finished { result: Err(Errno::Other(13)) });
    let fd = opened().next(ShmReply::Fd(Err(Errno::ENOSYS)));
    assert_eq!(fd.call(), ShmCall::Finished { result: Err(Errno::ENOSYS) });
    // The name stays: the object is closed, and the error is the one of the unlinking.
    let unlinked = || opened().next(ShmReply::Fd(Ok(8))).next(ShmReply::Done(Err(Errno::Other(2))));
    assert_eq!(unlinked().call(), ShmCall::Close { fd: 8 });
    assert_eq!(
        unlinked().next(ShmReply::Done(Ok(()))),
        ShmFd::Finished { result: Err(Errno::Other(2)) }
    );
    // The close fails too: its error counts.
    assert_eq!(
        unlinked().next(ShmReply::Done(Err(Errno::Other(5)))),
        ShmFd::Finished { result: Err(Errno::Other(5)) }
    );
}

#[test]
fn pool_is_made_step_by_step() {
    let setup: Setup<u8> = RawPool::new(4096);
    assert_eq!(setup.call(), SetupCall::BindShm);
    let setup = setup.next(SetupReply::Global(Ok(())));
    assert_eq!(setup.call(), SetupCall::CreateFd);
    let setup = setup.next(SetupReply::Fd(Ok(6)));
    assert_eq!(setup.call(), SetupCall::SetFileLen { fd: 6, len: 4096 });
    let setup = setup.next(SetupReply::Io(Ok(())));
    assert_eq!(setup.call(), SetupCall::CreatePool { fd: 6, size: 4096 });
    let setup = setup.next(SetupReply::Global(Ok(())));
    assert_eq!(setup.call(), SetupCall::MapFile { fd: 6 });
    let setup = setup.next(SetupReply::Io(Ok(())));
    assert_eq!(setup.call(), SetupCall::Finished);
    match setup {
        Setup::Finished { result: Ok(pool) } => assert_eq!(pool.len(), 4096),
        other => panic!("unexpected {:?}", other),
    }
}

#[test]
fn first_error_ends_the_setup() {
    let bound = || RawPool::new::<u8>(16).next(SetupReply::Global(Ok(())));
    let sized = || bound().next(SetupReply::Fd(Ok(1))).next(SetupReply::Io(Ok(())));
    let failed = |error: CreatePoolError<u8>| Setup::Finished { result: Err(error) };
    assert_eq!(
        RawPool::new::<u8>(16).next(SetupReply::Global(Err(GlobalError::MissingGlobal))),
        failed(CreatePoolError::Global(GlobalError::MissingGlobal))
    );
    assert_eq!(bound().next(SetupReply::Fd(Err(9))), failed(CreatePoolError::Create(9)));
    assert_eq!(
        bound().next(SetupReply::Fd(Ok(1))).next(SetupReply::Io(Err(8))),
        failed(CreatePoolError::Create(8))
    );
    assert_eq!(
        sized().next(SetupReply::Global(Err(GlobalError::InvalidId))),
        failed(CreatePoolError::Global(GlobalError::InvalidId))
    );
    assert_eq!(
        sized().next(SetupReply::Global(Ok(()))).next(SetupReply::Io(Err(7))),
        failed(CreatePoolError::Create(7))
    );
}

#[test]
fn sizes_wrap_on_the_wire() {
    let size = |len: usize| {
        let setup = RawPool::new::<u8>(len)
            .next(SetupReply::Global(Ok(())))
            .next(SetupReply::Fd(Ok(1)))
            .next(SetupReply::Io(Ok(())));
        match setup.call() {
            SetupCall::CreatePool { size, .. } => size,
            other => panic!("unexpected {:?}", other),
        }
    };
    for len in [0, 1, 0x7fff_ffff, 0x8000_0000, 0xffff_ffff, usize::MAX] {
        assert_eq!(size(len), len as i32);
    }
    assert_eq!(size(0x8000_0000), i32::MIN);
}

fn pool(len: usize) -> RawPool {
    let setup = RawPool::new::<u8>(len)
        .next(SetupReply::Global(Ok(())))
        .next(SetupReply::Fd(Ok(1)))
        .next(SetupReply::Io(Ok(())))
        .next(SetupReply::Global(Ok(())))
        .next(SetupReply::Io(Ok(())));
    match setup {
        Setup::Finished { result: Ok(pool) } => pool,
        other => panic!("unexpected {:?}", other),
    }
}

#[test]
fn pools_only_grow() {
    let mut pool = pool(100);
    assert_eq!(pool.resize::<u8>(99), Resize::Finished { result: Ok(()) });
    assert_eq!(pool.resize::<u8>(100), Resize::Finished { result: Ok(()) });
    assert_eq!(pool.len(), 100);
    let resize = pool.resize::<u8>(200);
    assert_eq!(pool.len(), 100);
    assert_eq!(resize.call(), ResizeCall::SetFileLen { len: 200 });
    let resize = resize.next(&mut pool, Ok(()));
    assert_eq!(pool.len(), 200);
    assert_eq!(resize.call(), ResizeCall::ResizePool { size: 200 });
    let resize = resize.next(&mut pool, Ok(()));
    assert_eq!(resize.call(), ResizeCall::MapFile);
    let resize = resize.next(&mut pool, Ok(()));
    assert_eq!(resize.call(), ResizeCall::Finished);
    assert_eq!(resize, Resize::Finished { result: Ok(()) });
    assert_eq!(pool.len(), 200);
}

#[test]
fn pools_keep_their_length_when_the_file_cannot_grow() {
    let mut pool = pool(4096);
    let resize = pool.resize::<u8>(8192).next(&mut pool, Err(4));
    assert_eq!(resize, Resize::Finished { result: Err(4) });
    assert_eq!(pool.len(), 4096);
    // The second attempt makes the calls again.
    let resize = pool.resize::<u8>(8192);
    assert_eq!(resize.call(), ResizeCall::SetFileLen { len: 8192 });
    resize.next(&mut pool, Ok(()));
    assert_eq!(pool.len(), 8192);
}

#[test]
fn pools_have_the_length_of_their_file_when_it_cannot_be_mapped() {
    let mut pool = pool(100);
    let resize = pool.resize::<u8>(300).next(&mut pool, Ok(()));
    let resize = resize.next(&mut pool, Ok(())).next(&mut pool, Err(5));
    assert_eq!(resize, Resize::Finished { result: Err(5) });
    assert_eq!(pool.len(), 300);
}

#[test]
fn length_is_the_largest_size_reached() {
    let mut pool = pool(100);
    for (size, grows, len) in [(50, true, 100), (400, false, 100), (200, true, 200), (150, true, 200)]
    {
        let resize = pool.resize::<u8>(size);
        if resize.call() != ResizeCall::Finished {
            resize.next(&mut pool, if grows { Ok(()) } else { Err(1) });
        }
        assert_eq!(pool.len(), len);
    }
}

#[test]
fn buffers_are_requested_as_asked() {
    let pool = pool(64);
    let request = CreateBuffer {
        offset: 1,
        width: 2,
        height: 3,
        stride: 4,
        format: WEnum::Value('x'),
    };
    assert_eq!(pool.create_buffer(1, 2, 3, 4, 'x'), request);
    assert_eq!(pool.create_buffer_raw(1, 2, 3, 4, 'x'), request);
}

#[test]
fn interrupted_attempts_are_repeated() {
    let mut fd = RawPool::create_shm_fd(true);
    for _ in 0..10 {
        fd = fd.next(ShmReply::Fd(Err(Errno::EINTR)));
        assert_eq!(fd, RawPool::create_shm_fd(true));
    }
    let mut fd = RawPool::create_shm_fd(false).next(ShmReply::Clock { subsec_nanos: 5 });
    for _ in 0..10 {
        fd = fd.next(ShmReply::Fd(Err(Errno::EINTR)));
        assert_eq!(fd, ShmFd::Open { name: shm_name(5) });
    }
}

#[test]
fn names_differ() {
    for (a, b) in [(0, 1), (1, 10), (12, 120), (99, 100), (7, 70_000_000)] {
        assert_ne!(shm_name(a), shm_name(b));
    }
}
