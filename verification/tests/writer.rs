use stack_buf_io::{
    Error, Failure, FlushStep, FollowStep, FollowUp, SeekFrom, StackBufWriter, VectoredStep,
    WriteStep,
};

/// A sink that takes as many bytes at a time as its script says, or all where
/// the script is over.
struct Sink {
    taken: Vec<u8>,
    script: Vec<Result<usize, Failure<&'static str>>>,
    calls: usize,
}

impl Sink {
    fn new(script: Vec<Result<usize, Failure<&'static str>>>) -> Sink {
        Sink { taken: Vec::new(), script, calls: 0 }
    }

    fn write(&mut self, data: &[u8]) -> Result<usize, Failure<&'static str>> {
        self.calls += 1;
        let most = if self.script.is_empty() { Ok(data.len()) } else { self.script.remove(0) };
        match most {
            Ok(most) => {
                let n = most.min(data.len());
                self.taken.extend_from_slice(&data[..n]);
                Ok(n)
            }
            Err(e) => Err(e),
        }
    }
}

fn interrupted() -> Result<usize, Failure<&'static str>> {
    Err(Failure { interrupted: true, error: "interrupted" })
}

fn broken() -> Result<usize, Failure<&'static str>> {
    Err(Failure { interrupted: false, error: "broken" })
}

fn send<const N: usize>(w: &mut StackBufWriter<Sink, N>) -> Result<usize, Failure<&'static str>> {
    let (buffered, sink) = w.parts();
    sink.write(buffered)
}

fn plain(reply: Result<usize, Failure<&'static str>>) -> Result<usize, &'static str> {
    reply.map_err(|failure| failure.error)
}

fn write<const N: usize>(
    w: &mut StackBufWriter<Sink, N>,
    data: &[u8],
) -> Result<usize, Error<&'static str>> {
    let mut step = w.write(data);
    loop {
        step = match step {
            WriteStep::Done(end) => return end,
            WriteStep::Flush => {
                let reply = send(w);
                w.write_reply(data, reply)
            }
            WriteStep::Direct => {
                let reply = w.get_mut().write(data);
                return w.write_direct_done(plain(reply));
            }
        };
    }
}

fn write_vectored<const N: usize>(
    w: &mut StackBufWriter<Sink, N>,
    bufs: &[&[u8]],
) -> Result<usize, Error<&'static str>> {
    let mut step = w.write_vectored(bufs);
    loop {
        step = match step {
            VectoredStep::Done(end) => return end,
            VectoredStep::Flush(first) => {
                let reply = send(w);
                w.write_vectored_reply(bufs, first, reply)
            }
            VectoredStep::Direct(first) => {
                let reply = w.get_mut().write(bufs[first]);
                return w.write_direct_done(plain(reply));
            }
        };
    }
}

fn flush_buf<const N: usize>(w: &mut StackBufWriter<Sink, N>) -> Result<(), Error<&'static str>> {
    let mut step = w.flush_buf();
    loop {
        step = match step {
            FlushStep::Done(end) => return end,
            FlushStep::Write => {
                let reply = send(w);
                w.flush_buf_reply(reply)
            }
        };
    }
}

fn holding<const N: usize>(
    data: &[u8],
    script: Vec<Result<usize, Failure<&'static str>>>,
) -> StackBufWriter<Sink, N> {
    let mut w = StackBufWriter::<_, N>::new(Sink::new(script));
    w.write_to_buffer_unchecked(data);
    w
}

#[test]
fn a_new_writer_is_empty() {
    let mut w = StackBufWriter::<_, 8>::new(7u32);
    assert_eq!(w.buffer(), b"");
    assert_eq!(w.capacity(), 8);
    assert_eq!(w.spare_capacity(), 8);
    assert_eq!(*w.get_ref(), 7);
    *w.get_mut() = 9;
    assert_eq!(*w.get_ref(), 9);
    assert_eq!(w.flush_buf::<&str>(), FlushStep::Done(Ok(())));
}

#[test]
fn small_writes_are_buffered() {
    let mut w = StackBufWriter::<_, 8>::new(Sink::new(Vec::new()));
    assert_eq!(write(&mut w, b"abc"), Ok(3));
    assert_eq!(write(&mut w, b"de"), Ok(2));
    assert_eq!(write(&mut w, b""), Ok(0));
    assert_eq!(w.buffer(), b"abcde");
    assert_eq!(w.spare_capacity(), 3);
    assert_eq!(w.get_ref().calls, 0);
}

#[test]
fn a_write_may_fill_the_buffer_exactly() {
    let mut w = holding::<8>(b"abcde", Vec::new());
    assert_eq!(write(&mut w, b"fgh"), Ok(3));
    assert_eq!(w.buffer(), b"abcdefgh");
    assert_eq!(w.spare_capacity(), 0);
    assert_eq!(w.get_ref().calls, 0);
    assert_eq!(write(&mut w, b""), Ok(0));
    assert_eq!(w.get_ref().calls, 0);
}

#[test]
fn a_write_without_room_flushes_first() {
    let mut w = holding::<4>(b"abc", vec![Ok(1), interrupted(), Ok(1)]);
    assert_eq!(w.write::<&str>(b"de"), WriteStep::Flush);
    assert_eq!(write(&mut w, b"de"), Ok(2));
    assert_eq!(w.get_ref().taken, b"abc");
    assert_eq!(w.get_ref().calls, 4);
    assert_eq!(w.buffer(), b"de");
}

#[test]
fn a_write_of_the_capacity_bypasses_an_empty_buffer() {
    let mut w = StackBufWriter::<_, 4>::new(Sink::new(vec![Ok(2)]));
    assert_eq!(w.write::<&str>(b"abcd"), WriteStep::Direct);
    assert_eq!(write(&mut w, b"abcd"), Ok(2));
    assert_eq!(w.get_ref().taken, b"ab");
    assert_eq!(w.buffer(), b"");
    let mut w = holding::<4>(b"x", Vec::new());
    assert_eq!(write(&mut w, b"abcd"), Ok(4));
    assert_eq!(w.get_ref().taken, b"xabcd");
    assert_eq!(w.buffer(), b"");
}

#[test]
fn a_direct_write_passes_the_error_on() {
    let mut w = StackBufWriter::<_, 4>::new(Sink::new(vec![interrupted()]));
    assert_eq!(write(&mut w, b"abcd"), Err(Error::Inner("interrupted")));
    assert_eq!(w.get_ref().calls, 1);
}

#[test]
fn a_writer_without_a_buffer_always_bypasses_it() {
    let mut w = StackBufWriter::<_, 0>::new(Sink::new(Vec::new()));
    assert_eq!(w.write::<&str>(b""), WriteStep::Direct);
    assert_eq!(write(&mut w, b"a"), Ok(1));
    assert_eq!(w.get_ref().taken, b"a");
}

#[test]
fn a_flush_goes_on_until_all_is_written() {
    let mut w = holding::<8>(b"abcdefgh", vec![Ok(3), interrupted(), Ok(1), Ok(9)]);
    assert_eq!(flush_buf(&mut w), Ok(()));
    assert_eq!(w.get_ref().taken, b"abcdefgh");
    assert_eq!(w.get_ref().calls, 4);
    assert_eq!(w.buffer(), b"");
    assert_eq!(w.spare_capacity(), 8);
}

#[test]
fn a_flush_needs_no_more_calls_than_bytes() {
    let mut w = holding::<8>(b"abcdefgh", (0..8).map(|_| Ok(1)).collect());
    assert_eq!(flush_buf(&mut w), Ok(()));
    assert_eq!(w.get_ref().calls, 8);
    assert_eq!(w.get_ref().taken, b"abcdefgh");
}

#[test]
fn a_failed_flush_keeps_what_was_not_written() {
    let mut w = holding::<8>(b"abcdefgh", vec![Ok(3), broken()]);
    assert_eq!(flush_buf(&mut w), Err(Error::Inner("broken")));
    assert_eq!(w.get_ref().taken, b"abc");
    assert_eq!(w.buffer(), b"defgh");
    assert_eq!(flush_buf(&mut w), Ok(()));
    assert_eq!(w.get_ref().taken, b"abcdefgh");
}

#[test]
fn a_write_of_nothing_is_an_error() {
    let mut w = holding::<8>(b"abcdefgh", vec![Ok(3), Ok(0)]);
    assert_eq!(flush_buf(&mut w), Err(Error::WriteZero));
    assert_eq!(w.buffer(), b"defgh");
    let mut w = holding::<4>(b"abc", vec![Ok(0)]);
    assert_eq!(write(&mut w, b"de"), Err(Error::WriteZero));
    assert_eq!(w.buffer(), b"abc");
}

#[test]
fn a_writer_that_claims_too_much_ends_the_flush() {
    let mut w = holding::<8>(b"abc", Vec::new());
    assert_eq!(w.flush_buf::<&str>(), FlushStep::Write);
    assert_eq!(w.flush_buf_reply::<&str>(Ok(usize::MAX)), FlushStep::Done(Ok(())));
    assert_eq!(w.buffer(), b"");
}

#[test]
fn write_all_buffers_or_asks_for_all() {
    let mut w = StackBufWriter::<_, 4>::new(Sink::new(Vec::new()));
    assert_eq!(w.write_all::<&str>(b"abc"), WriteStep::Done(Ok(())));
    assert_eq!(w.write_all::<&str>(b"d"), WriteStep::Done(Ok(())));
    assert_eq!(w.buffer(), b"abcd");
    assert_eq!(w.write_all::<&str>(b"e"), WriteStep::Flush);
    let reply = send(&mut w);
    assert_eq!(w.write_all_reply(b"e", reply), WriteStep::Done(Ok(())));
    assert_eq!(w.buffer(), b"e");
    assert_eq!(w.write_all::<&str>(b"fghij"), WriteStep::Flush);
    assert_eq!(
        w.write_all_reply(b"fghij", interrupted()),
        WriteStep::Flush
    );
    let reply = send(&mut w);
    assert_eq!(w.write_all_reply(b"fghij", reply), WriteStep::Direct);
    assert_eq!(w.get_ref().taken, b"abcde");
    assert_eq!(w.write_direct_done::<(), &str>(Ok(())), Ok(()));
    assert_eq!(w.write_all::<&str>(b"k"), WriteStep::Done(Ok(())));
    assert_eq!(w.write_all::<&str>(b"lmno"), WriteStep::Flush);
    assert_eq!(
        w.write_all_reply(b"lmno", broken()),
        WriteStep::Done(Err(Error::Inner("broken")))
    );
    assert_eq!(w.buffer(), b"k");
}

#[test]
fn vectored_writes_buffer_the_slices_that_fit() {
    let mut w = holding::<8>(b"ab", Vec::new());
    assert_eq!(write_vectored(&mut w, &[b"", b"cd", b"", b"efg", b"hi", b"j"]), Ok(5));
    assert_eq!(w.buffer(), b"abcdefg");
    assert_eq!(w.get_ref().calls, 0);
    assert_eq!(write_vectored(&mut w, &[b"h", b"", b"i"]), Ok(1));
    assert_eq!(w.buffer(), b"abcdefgh");
}

#[test]
fn vectored_writes_of_nothing_do_nothing() {
    let mut w = holding::<4>(b"abcd", Vec::new());
    assert_eq!(write_vectored(&mut w, &[]), Ok(0));
    assert_eq!(write_vectored(&mut w, &[b"", b""]), Ok(0));
    assert_eq!(w.buffer(), b"abcd");
    assert_eq!(w.get_ref().calls, 0);
}

#[test]
fn vectored_writes_flush_for_the_first_slice_only() {
    let mut w = holding::<4>(b"abc", vec![Ok(2), interrupted()]);
    assert_eq!(w.write_vectored::<&str>(&[b"", b"de"]), VectoredStep::Flush(1));
    assert_eq!(write_vectored(&mut w, &[b"", b"de", b"f", b"gh", b"i"]), Ok(3));
    assert_eq!(w.get_ref().taken, b"abc");
    assert_eq!(w.buffer(), b"def");
}

#[test]
fn a_large_first_slice_is_written_directly() {
    let mut w = holding::<4>(b"a", Vec::new());
    assert_eq!(write_vectored(&mut w, &[b"", b"bcde", b"f"]), Ok(4));
    assert_eq!(w.get_ref().taken, b"abcde");
    assert_eq!(w.buffer(), b"");
    assert_eq!(w.write_vectored::<&str>(&[b"fghij"]), VectoredStep::Direct(0));
}

#[test]
fn a_vectored_write_that_cannot_flush_takes_nothing() {
    let mut w = holding::<4>(b"abc", vec![Ok(1), broken()]);
    assert_eq!(write_vectored(&mut w, &[b"de"]), Err(Error::Inner("broken")));
    assert_eq!(w.buffer(), b"bc");
    let mut w = holding::<4>(b"abc", vec![Ok(0)]);
    assert_eq!(write_vectored(&mut w, &[b"de"]), Err(Error::WriteZero));
}

#[test]
fn a_flush_of_the_wrapped_writer_comes_last() {
    let mut w = holding::<4>(b"abc", Vec::new());
    assert_eq!(w.flush::<&str>(), FollowStep::Write);
    assert_eq!(w.follow_reply(FollowUp::Flush, interrupted()), FollowStep::Write);
    let reply = send(&mut w);
    assert_eq!(w.follow_reply(FollowUp::Flush, reply), FollowStep::Call(FollowUp::Flush));
    assert_eq!(w.get_ref().taken, b"abc");
    assert_eq!(w.flush::<&str>(), FollowStep::Call(FollowUp::Flush));
}

#[test]
fn a_seek_writes_out_the_buffer_first() {
    let mut w = holding::<4>(b"abc", vec![Ok(1)]);
    let target = SeekFrom::End(-2);
    assert_eq!(w.seek::<&str>(target), FollowStep::Write);
    let reply = send(&mut w);
    assert_eq!(w.follow_reply(FollowUp::Seek(target), reply), FollowStep::Write);
    assert_eq!(
        w.follow_reply(FollowUp::Seek(target), Ok::<usize, Failure<&str>>(0)),
        FollowStep::Failed(Error::WriteZero)
    );
    assert_eq!(w.buffer(), b"bc");
    assert_eq!(w.seek::<&str>(target), FollowStep::Write);
    let reply = send(&mut w);
    assert_eq!(
        w.follow_reply(FollowUp::Seek(target), reply),
        FollowStep::Call(FollowUp::Seek(target))
    );
    assert_eq!(w.seek::<&str>(target), FollowStep::Call(FollowUp::Seek(target)));
}

#[test]
fn a_writer_that_goes_away_is_flushed() {
    let mut w = holding::<4>(b"abc", Vec::new());
    assert_eq!(w.flush_on_drop::<&str>(), FlushStep::Write);
    let reply = send(&mut w);
    assert_eq!(w.flush_buf_reply(reply), FlushStep::Done(Ok(())));
    assert_eq!(w.flush_on_drop::<&str>(), FlushStep::Done(Ok(())));
}

#[test]
fn a_writer_whose_write_never_came_back_is_not_flushed() {
    let mut w = holding::<4>(b"abc", Vec::new());
    assert_eq!(w.flush_buf::<&str>(), FlushStep::Write);
    assert_eq!(w.flush_on_drop::<&str>(), FlushStep::Done(Ok(())));
    assert_eq!(w.buffer(), b"abc");
    let mut w = StackBufWriter::<_, 2>::new(Sink::new(Vec::new()));
    assert_eq!(w.write::<&str>(b"abc"), WriteStep::Direct);
    assert_eq!(w.flush_on_drop::<&str>(), FlushStep::Done(Ok(())));
    assert_eq!(w.write_direct_done::<usize, &str>(Err("broken")), Err(Error::Inner("broken")));
    assert_eq!(w.write::<&str>(b"a"), WriteStep::Done(Ok(1)));
    assert_eq!(w.flush_on_drop::<&str>(), FlushStep::Write);
}

#[test]
fn the_sink_gets_all_bytes_in_order() {
    let data: Vec<u8> = (0..=255).collect();
    for piece in 1..9usize {
        let script = (0..2000)
            .map(|i| {
                if i % 5 == 4 {
                    interrupted()
                } else if i % 7 == 6 {
                    broken()
                } else {
                    Ok((i * piece + 1) % 4)
                }
            })
            .collect();
        let mut w = StackBufWriter::<_, 5>::new(Sink::new(script));
        let mut accepted = Vec::new();
        let mut at = 0;
        let mut turn = 0;
        while at < data.len() && turn < 1500 {
            let len = (1 + turn % 8).min(data.len() - at);
            let part = &data[at..at + len];
            let taken = if turn % 3 == 0 {
                let (a, b) = part.split_at(len / 2);
                write_vectored(&mut w, &[a, b])
            } else {
                write(&mut w, part)
            };
            if let Ok(n) = taken {
                accepted.extend_from_slice(&part[..n]);
                at += n;
            }
            let mut all = w.get_ref().taken.clone();
            all.extend_from_slice(w.buffer());
            assert_eq!(all, accepted);
            turn += 1;
        }
        assert!(accepted.len() > 20);
        w.get_mut().script.clear();
        assert_eq!(flush_buf(&mut w), Ok(()));
        assert_eq!(w.get_ref().taken, accepted);
    }
}
