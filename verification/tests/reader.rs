use stack_buf_io::{
    Error, ExactStep, Failure, ReadStep, SeekFrom, SeekStep, StackBufReader,
};

/// A stream that hands out its bytes in pieces of a scripted size, and fails
/// where the script says so.
struct Pieces {
    data: Vec<u8>,
    at: usize,
    script: Vec<Result<usize, Failure<&'static str>>>,
    spaces: Vec<usize>,
}

impl Pieces {
    fn new(data: &[u8], script: Vec<Result<usize, Failure<&'static str>>>) -> Pieces {
        Pieces { data: data.to_vec(), at: 0, script, spaces: Vec::new() }
    }

    fn read(&mut self, space: &mut [u8]) -> Result<usize, Failure<&'static str>> {
        self.spaces.push(space.len());
        let most = if self.script.is_empty() { Ok(space.len()) } else { self.script.remove(0) };
        match most {
            Ok(most) => {
                let n = most.min(space.len()).min(self.data.len() - self.at);
                space[..n].copy_from_slice(&self.data[self.at..self.at + n]);
                self.at += n;
                Ok(n)
            }
            Err(e) => Err(e),
        }
    }
}

fn interrupted() -> Result<usize, Failure<&'static str>> {
    Err(Failure { interrupted: true, error: "interrupted" })
}

fn broken() -> Result<usize, Failure<&'static str>> {
    Err(Failure { interrupted: false, error: "broken" })
}

fn fill<const N: usize>(r: &mut StackBufReader<Pieces, N>) -> Result<usize, Failure<&'static str>> {
    let (inner, space) = r.fill_parts();
    inner.read(space)
}

fn read<const N: usize>(
    r: &mut StackBufReader<Pieces, N>,
    dst: &mut [u8],
) -> Result<usize, Failure<&'static str>> {
    match r.read(dst) {
        ReadStep::Done(n) => Ok(n),
        ReadStep::Fill => {
            let reply = fill(r);
            r.read_filled(dst, reply)
        }
        ReadStep::Direct => r.get_mut().read(dst),
    }
}

fn read_exact<const N: usize>(
    r: &mut StackBufReader<Pieces, N>,
    dst: &mut [u8],
) -> Result<(), Error<&'static str>> {
    let mut step = r.read_exact(dst);
    loop {
        step = match step {
            ExactStep::Done(end) => return end,
            ExactStep::Fill(got) => {
                let reply = fill(r);
                r.read_exact_filled(dst, got, reply)
            }
            ExactStep::Direct(got) => {
                let reply = r.get_mut().read(&mut dst[got..]);
                r.read_exact_direct(dst, got, reply)
            }
        };
    }
}

fn loaded<const N: usize>(data: &[u8]) -> StackBufReader<Pieces, N> {
    let mut r = StackBufReader::<_, N>::new(Pieces::new(data, Vec::new()));
    let reply = fill(&mut r);
    assert!(r.fill_done(reply).is_ok());
    r
}

#[test]
fn a_new_reader_is_empty() {
    let r = StackBufReader::<_, 8>::new(7u32);
    assert!(r.buffer().is_empty());
    assert_eq!(r.capacity(), 8);
    assert_eq!(*r.get_ref(), 7);
    assert!(r.fill_buf().is_none());
    assert_eq!(r.into_inner(), 7);
}

#[test]
fn get_mut_reaches_the_wrapped_reader() {
    let mut r = StackBufReader::<_, 8>::new(7u32);
    *r.get_mut() = 9;
    assert_eq!(*r.get_ref(), 9);
    assert!(r.buffer().is_empty());
}

#[test]
fn a_filled_buffer_is_what_was_delivered() {
    let mut r = StackBufReader::<_, 4>::new(Pieces::new(b"abcdef", vec![Ok(3)]));
    let reply = fill(&mut r);
    assert_eq!(r.fill_done(reply), Ok(&b"abc"[..]));
    assert_eq!(r.fill_buf(), Some(&b"abc"[..]));
    assert_eq!(r.buffer(), b"abc");
    assert_eq!(r.get_ref().spaces, vec![4]);
}

#[test]
fn a_failed_fill_leaves_an_empty_buffer() {
    let mut r = loaded::<4>(b"abcdef");
    r.consume(4);
    r.get_mut().script = vec![broken()];
    let reply = fill(&mut r);
    assert_eq!(
        r.fill_done(reply),
        Err(Failure { interrupted: false, error: "broken" })
    );
    assert!(r.buffer().is_empty());
    r.unconsume(4);
    assert!(r.buffer().is_empty());
}

#[test]
fn consume_stops_at_the_end_of_the_buffer() {
    let mut r = loaded::<4>(b"abcdef");
    r.consume(1);
    assert_eq!(r.buffer(), b"bcd");
    r.consume(9);
    assert_eq!(r.buffer(), b"");
    assert!(r.fill_buf().is_none());
    r.consume(usize::MAX);
    assert_eq!(r.buffer(), b"");
}

#[test]
fn unconsume_undoes_consume() {
    let mut r = loaded::<4>(b"abcdef");
    r.consume(3);
    r.unconsume(2);
    assert_eq!(r.buffer(), b"bcd");
    r.unconsume(9);
    assert_eq!(r.buffer(), b"abcd");
    r.consume(1);
    r.consume(2);
    assert_eq!(r.buffer(), b"d");
}

#[test]
fn consume_with_takes_all_or_nothing() {
    let mut r = loaded::<4>(b"abcdef");
    let mut dst = [b'x'; 3];
    assert!(r.consume_with(&mut dst));
    assert_eq!(&dst, b"abc");
    assert!(!r.consume_with(&mut dst));
    assert_eq!(&dst, b"abc");
    assert_eq!(r.buffer(), b"d");
}

#[test]
fn discard_buffer_drops_all() {
    let mut r = loaded::<4>(b"abcdef");
    r.consume(1);
    r.discard_buffer();
    assert_eq!(r.buffer(), b"");
    r.unconsume(1);
    assert_eq!(r.buffer(), b"");
}

#[test]
fn a_small_read_goes_through_the_buffer() {
    let mut r = StackBufReader::<_, 4>::new(Pieces::new(b"abcdef", Vec::new()));
    let mut dst = [b'x'; 3];
    assert_eq!(r.read(&mut dst), ReadStep::Fill);
    let reply = fill(&mut r);
    assert_eq!(r.read_filled(&mut dst, reply), Ok(3));
    assert_eq!(&dst, b"abc");
    assert_eq!(r.buffer(), b"d");
    assert_eq!(r.read(&mut dst), ReadStep::Done(1));
    assert_eq!(&dst, b"dbc");
    assert_eq!(r.get_ref().spaces, vec![4]);
}

#[test]
fn a_read_of_the_capacity_bypasses_an_empty_buffer() {
    let mut r = StackBufReader::<_, 4>::new(Pieces::new(b"abcdef", Vec::new()));
    let mut dst = [0u8; 4];
    assert_eq!(r.read(&mut dst), ReadStep::Direct);
    let mut r = loaded::<4>(b"abcdef");
    r.consume(3);
    assert_eq!(r.read(&mut dst), ReadStep::Done(1));
    assert_eq!(dst, [b'd', 0, 0, 0]);
    assert_eq!(r.read(&mut dst), ReadStep::Direct);
    r.unconsume(4);
    assert_eq!(r.buffer(), b"");
}

#[test]
fn a_failed_read_reports_the_error() {
    let mut r = StackBufReader::<_, 4>::new(Pieces::new(b"abcdef", vec![interrupted()]));
    let mut dst = [b'x'; 2];
    assert_eq!(
        read(&mut r, &mut dst),
        Err(Failure { interrupted: true, error: "interrupted" })
    );
    assert_eq!(&dst, b"xx");
    assert_eq!(read(&mut r, &mut dst), Ok(2));
    assert_eq!(&dst, b"ab");
}

#[test]
fn reads_give_out_the_stream() {
    let data: Vec<u8> = (0..200).collect();
    for piece in 1..9usize {
        let script = (0..400).map(|i| Ok(1 + (i * piece) % 7)).collect();
        let mut r = StackBufReader::<_, 5>::new(Pieces::new(&data, script));
        let mut got = Vec::new();
        let mut want = 1;
        loop {
            let mut dst = vec![0u8; want];
            let n = read(&mut r, &mut dst).unwrap();
            if n == 0 {
                break;
            }
            got.extend_from_slice(&dst[..n]);
            want = 1 + (want + piece) % 11;
        }
        assert_eq!(got, data);
    }
}

#[test]
fn a_read_of_nothing_still_fills_an_empty_buffer() {
    let mut r = StackBufReader::<_, 4>::new(Pieces::new(b"abc", Vec::new()));
    assert_eq!(r.read(&mut []), ReadStep::Fill);
    let reply = fill(&mut r);
    assert_eq!(r.read_filled(&mut [], reply), Ok(0));
    assert_eq!(r.read(&mut []), ReadStep::Done(0));
    assert_eq!(r.buffer(), b"abc");
}

#[test]
fn a_reader_without_a_buffer_always_bypasses_it() {
    let mut r = StackBufReader::<_, 0>::new(Pieces::new(b"abc", Vec::new()));
    assert_eq!(r.read(&mut []), ReadStep::Direct);
    assert_eq!(r.read(&mut [0]), ReadStep::Direct);
    let mut dst = [0u8; 3];
    assert_eq!(read_exact(&mut r, &mut dst), Ok(()));
    assert_eq!(&dst, b"abc");
}

#[test]
fn vectored_reads_go_on_from_one_vector_to_the_next() {
    let mut r = loaded::<8>(b"abcdefghij");
    let mut bufs = vec![vec![b'x'; 3], vec![], vec![b'y'; 2], vec![b'z'; 1]];
    assert_eq!(r.read_vectored(&mut bufs), ReadStep::Done(6));
    assert_eq!(bufs, vec![b"abc".to_vec(), vec![], b"de".to_vec(), b"f".to_vec()]);
    assert_eq!(r.buffer(), b"gh");
    assert_eq!(r.read_vectored(&mut bufs), ReadStep::Done(2));
    assert_eq!(bufs, vec![b"ghc".to_vec(), vec![], b"de".to_vec(), b"f".to_vec()]);
    assert_eq!(r.read_vectored(&mut bufs), ReadStep::Fill);
    let reply = fill(&mut r);
    assert_eq!(r.read_vectored_filled(&mut bufs, reply), Ok(2));
    assert_eq!(bufs, vec![b"ijc".to_vec(), vec![], b"de".to_vec(), b"f".to_vec()]);
}

#[test]
fn large_vectored_reads_bypass_an_empty_buffer() {
    let mut r = StackBufReader::<_, 4>::new(Pieces::new(b"abc", Vec::new()));
    let mut bufs = vec![vec![0u8; 2], vec![0u8; 2]];
    assert_eq!(r.read_vectored(&mut bufs), ReadStep::Direct);
    bufs.pop();
    assert_eq!(r.read_vectored(&mut bufs), ReadStep::Fill);
    assert_eq!(r.read_vectored_filled(&mut bufs, Err("broken")), Err("broken"));
    assert_eq!(bufs, vec![vec![0u8; 2]]);
}

#[test]
fn a_vectored_read_equals_one_read_into_all_the_vectors() {
    for k in 0..6usize {
        let mut one = loaded::<5>(b"abcde");
        let mut many = loaded::<5>(b"abcde");
        let mut dst = vec![b'x'; 7 - k];
        let mut bufs = vec![vec![b'x'; 1], vec![b'x'; 6 - k]];
        assert_eq!(one.read(&mut dst), many.read_vectored(&mut bufs));
        assert_eq!(dst, bufs.concat());
        assert_eq!(one.buffer(), many.buffer());
    }
}

#[test]
fn an_exact_read_from_the_buffer_needs_no_call() {
    let mut r = loaded::<4>(b"abcdef");
    let mut dst = [0u8; 3];
    assert_eq!(r.read_exact::<&str>(&mut dst), ExactStep::Done(Ok(())));
    assert_eq!(&dst, b"abc");
    assert_eq!(r.buffer(), b"d");
    assert_eq!(r.read_exact::<&str>(&mut []), ExactStep::Done(Ok(())));
}

#[test]
fn an_exact_read_takes_what_is_buffered_first() {
    let mut r = loaded::<4>(b"abcdefghijkl");
    r.consume(2);
    let mut dst = [0u8; 5];
    assert_eq!(r.read_exact::<&str>(&mut dst), ExactStep::Fill(2));
    assert_eq!(&dst[..2], b"cd");
    let mut r = loaded::<4>(b"abcdefghijkl");
    r.consume(2);
    let mut dst = [0u8; 6];
    assert_eq!(r.read_exact::<&str>(&mut dst), ExactStep::Direct(2));
    assert_eq!(&dst[..2], b"cd");
}

#[test]
fn an_exact_read_goes_on_over_interruptions_and_short_reads() {
    for want in 0..20usize {
        let script = vec![Ok(1), interrupted(), Ok(2), interrupted(), interrupted(), Ok(1)];
        let mut r = StackBufReader::<_, 4>::new(Pieces::new(b"abcdefghijklmnopqrstuvwxyz", script));
        let mut dst = vec![0u8; want];
        assert_eq!(read_exact(&mut r, &mut dst), Ok(()));
        assert_eq!(&dst[..], &b"abcdefghijklmnopqrstuvwxyz"[..want]);
        let rest = r.buffer().to_vec();
        assert_eq!(&rest[..], &b"abcdefghijklmnopqrstuvwxyz"[want..want + rest.len()]);
        assert_eq!(r.get_ref().at, want + rest.len());
    }
}

#[test]
fn an_exact_read_reports_the_end_of_the_input() {
    for n in 0..6usize {
        let mut r = StackBufReader::<_, 4>::new(Pieces::new(&b"abcdef"[..n], Vec::new()));
        let mut dst = [b'x'; 6];
        assert_eq!(read_exact(&mut r, &mut dst), Err(Error::UnexpectedEof));
        assert_eq!(&dst[..n], &b"abcdef"[..n]);
        assert_eq!(r.buffer(), b"");
    }
}

#[test]
fn an_exact_read_reports_an_error() {
    let mut r = StackBufReader::<_, 4>::new(Pieces::new(b"abcdef", vec![Ok(2), broken()]));
    let mut dst = [0u8; 3];
    assert_eq!(read_exact(&mut r, &mut dst), Err(Error::Inner("broken")));
    let mut r = StackBufReader::<_, 4>::new(Pieces::new(b"abcdef", vec![Ok(2), broken()]));
    let mut dst = [0u8; 9];
    assert_eq!(read_exact(&mut r, &mut dst), Err(Error::Inner("broken")));
    assert_eq!(&dst[..2], b"ab");
}

#[test]
fn default_read_exact_goes_on_where_it_is_told() {
    let mut r = loaded::<4>(b"abcdef");
    let mut dst = [b'x'; 6];
    assert_eq!(r.default_read_exact::<&str>(&mut dst, 1), ExactStep::Fill(5));
    assert_eq!(&dst, b"xabcdx");
    assert_eq!(r.default_read_exact::<&str>(&mut dst, 6), ExactStep::Done(Ok(())));
}

#[test]
fn read_to_end_drains_the_buffer_first() {
    let mut r = loaded::<4>(b"abcdef");
    r.consume(1);
    let mut out = b"x".to_vec();
    assert_eq!(r.read_to_end::<&str>(&mut out), Ok(3));
    assert_eq!(out, b"xbcd");
    assert_eq!(r.buffer(), b"");
    assert_eq!(r.read_to_end::<&str>(&mut out), Ok(0));
    assert_eq!(out, b"xbcd");
    assert_eq!(StackBufReader::<Pieces, 4>::read_to_end_done::<&str>(3, Ok(2)), Ok(5));
    assert_eq!(
        StackBufReader::<Pieces, 4>::read_to_end_done(3, Err("broken")),
        Err(Error::Inner("broken"))
    );
}

#[test]
fn read_to_end_without_memory_changes_nothing() {
    let mut r = loaded::<4>(b"abcdef");
    let mut out = b"x".to_vec();
    assert_eq!(r.drain_reserved::<&str>(&mut out, false), Err(Error::OutOfMemory));
    assert_eq!(out, b"x");
    assert_eq!(r.buffer(), b"abcd");
    assert_eq!(r.drain_reserved::<&str>(&mut out, true), Ok(4));
    assert_eq!(out, b"xabcd");
    assert_eq!(r.buffer(), b"");
}

#[test]
fn seeks_from_the_current_position_account_for_the_buffer() {
    let mut r = loaded::<4>(b"abcdef");
    r.consume(1);
    assert_eq!(r.seek(SeekFrom::Current(5)), SeekStep::Seek(SeekFrom::Current(2)));
    assert_eq!(r.seek(SeekFrom::Current(0)), SeekStep::Seek(SeekFrom::Current(-3)));
    assert_eq!(r.seek(SeekFrom::Start(5)), SeekStep::Seek(SeekFrom::Start(5)));
    assert_eq!(r.seek(SeekFrom::End(-5)), SeekStep::Seek(SeekFrom::End(-5)));
    assert_eq!(
        r.seek(SeekFrom::Current(i64::MIN + 3)),
        SeekStep::Seek(SeekFrom::Current(i64::MIN))
    );
    assert_eq!(
        r.seek(SeekFrom::Current(i64::MIN + 2)),
        SeekStep::Rewind { back: -3, on: i64::MIN + 2 }
    );
    assert_eq!(r.buffer(), b"bcd");
}

#[test]
fn a_seek_discards_the_buffer_if_it_goes_well() {
    let mut r = loaded::<4>(b"abcdef");
    assert_eq!(r.seek_done::<&str>(Err("broken")), Err("broken"));
    assert_eq!(r.buffer(), b"abcd");
    assert_eq!(r.seek_done::<&str>(Ok(3)), Ok(3));
    assert_eq!(r.buffer(), b"");
}

#[test]
fn a_seek_in_two_calls_discards_the_buffer_after_the_first() {
    let mut r = loaded::<4>(b"abcdef");
    assert_eq!(r.seek_rewound(i64::MIN, Err("broken")), Err("broken"));
    assert_eq!(r.buffer(), b"abcd");
    assert_eq!(
        r.seek_rewound::<&str>(i64::MIN, Ok(0)),
        Ok(SeekStep::Seek(SeekFrom::Current(i64::MIN)))
    );
    assert_eq!(r.buffer(), b"");
    assert_eq!(r.seek_done::<&str>(Err("broken")), Err("broken"));
}

#[test]
fn the_stream_position_is_that_of_a_seek_by_nothing() {
    let mut r = loaded::<4>(b"abcdef");
    r.consume(1);
    assert_eq!(r.stream_position::<&str>(Ok(4)), Ok(1));
    assert_eq!(r.stream_position::<&str>(Ok(3)), Ok(0));
    assert_eq!(r.stream_position(Err("broken")), Err("broken"));
    match r.seek(SeekFrom::Current(0)) {
        SeekStep::Seek(SeekFrom::Current(d)) => assert_eq!(4 + d, 1),
        _ => panic!("a seek by nothing takes one call"),
    }
}

#[test]
fn a_relative_seek_within_the_buffer_keeps_it() {
    let mut r = loaded::<4>(b"abcdef");
    r.consume(1);
    assert_eq!(r.seek_relative(2), None);
    assert_eq!(r.buffer(), b"d");
    assert_eq!(r.seek_relative(1), None);
    assert_eq!(r.buffer(), b"");
    assert_eq!(r.seek_relative(-4), None);
    assert_eq!(r.buffer(), b"abcd");
    assert_eq!(r.seek_relative(0), None);
    assert_eq!(r.buffer(), b"abcd");
}

#[test]
fn a_relative_seek_out_of_the_buffer_is_a_seek() {
    let mut r = loaded::<4>(b"abcdef");
    r.consume(1);
    assert_eq!(r.seek_relative(4), Some(SeekStep::Seek(SeekFrom::Current(1))));
    assert_eq!(r.seek_relative(-2), Some(SeekStep::Seek(SeekFrom::Current(-5))));
    assert_eq!(
        r.seek_relative(i64::MAX),
        Some(SeekStep::Seek(SeekFrom::Current(i64::MAX - 3)))
    );
    assert_eq!(
        r.seek_relative(i64::MIN),
        Some(SeekStep::Rewind { back: -3, on: i64::MIN })
    );
    assert_eq!(r.buffer(), b"bcd");
}

fn move_to(p: &mut Pieces, target: SeekFrom) -> Result<u64, &'static str> {
    let there = match target {
        SeekFrom::Start(n) => n as i64,
        SeekFrom::End(n) => p.data.len() as i64 + n,
        SeekFrom::Current(n) => match (p.at as i64).checked_add(n) {
            Some(there) => there,
            None => return Err("too far"),
        },
    };
    if there < 0 {
        return Err("before the start");
    }
    p.at = there as usize;
    Ok(there as u64)
}

fn run_seek<const N: usize>(
    r: &mut StackBufReader<Pieces, N>,
    step: SeekStep,
) -> Result<u64, &'static str> {
    match step {
        SeekStep::Seek(target) => {
            let reply = move_to(r.get_mut(), target);
            r.seek_done(reply)
        }
        SeekStep::Rewind { back, on } => {
            let reply = move_to(r.get_mut(), SeekFrom::Current(back));
            let step = r.seek_rewound(on, reply)?;
            run_seek(r, step)
        }
    }
}

fn position<const N: usize>(r: &StackBufReader<Pieces, N>) -> u64 {
    r.stream_position::<&str>(Ok(r.get_ref().at as u64)).unwrap()
}

#[test]
fn reads_and_seeks_in_any_order_find_the_stream() {
    let mut r = StackBufReader::<_, 4>::new(Pieces::new(b"abcdefghijklmnop", Vec::new()));
    let mut two = [0u8; 2];
    assert_eq!(read(&mut r, &mut two), Ok(2));
    assert_eq!(&two, b"ab");
    assert_eq!((position(&r), r.get_ref().at), (2, 4));

    assert_eq!(r.seek_relative(1), None);
    assert_eq!(r.buffer(), b"d");
    r.unconsume(2);
    assert_eq!(r.buffer(), b"bcd");
    assert_eq!(position(&r), 1);
    r.unconsume(9);
    assert_eq!(r.buffer(), b"abcd");
    assert_eq!(position(&r), 0);

    let mut rows = vec![vec![0u8; 1], vec![0u8; 2]];
    assert_eq!(r.read_vectored(&mut rows), ReadStep::Done(3));
    assert_eq!(rows, vec![b"a".to_vec(), b"bc".to_vec()]);
    assert_eq!(position(&r), 3);

    let step = r.seek(SeekFrom::Current(5));
    assert_eq!(run_seek(&mut r, step), Ok(8));
    assert_eq!((position(&r), r.buffer()), (8, &b""[..]));

    let mut five = [0u8; 5];
    r.get_mut().script = vec![Ok(3), interrupted(), Ok(1)];
    assert_eq!(read_exact(&mut r, &mut five), Ok(()));
    assert_eq!(&five, b"ijklm");
    assert_eq!(position(&r), 13);

    let step = r.seek(SeekFrom::End(-4));
    assert_eq!(run_seek(&mut r, step), Ok(12));
    assert_eq!(read(&mut r, &mut two), Ok(2));
    assert_eq!(&two, b"mn");
    assert_eq!((position(&r), r.get_ref().at), (14, 16));

    r.discard_buffer();
    assert_eq!(position(&r), 16);
    let step = r.seek(SeekFrom::Start(3));
    assert_eq!(run_seek(&mut r, step), Ok(3));
    let mut rows = vec![vec![0u8; 2], vec![0u8; 1]];
    assert_eq!(r.read_vectored(&mut rows), ReadStep::Fill);
    let reply = fill(&mut r);
    assert_eq!(r.read_vectored_filled(&mut rows, reply), Ok(3));
    assert_eq!(rows, vec![b"de".to_vec(), b"f".to_vec()]);
    assert_eq!((position(&r), r.buffer()), (6, &b"g"[..]));
}

#[test]
fn a_failed_seek_keeps_the_position_in_the_stream() {
    let mut r = loaded::<4>(b"abcdefgh");
    r.consume(1);
    let step = r.seek(SeekFrom::Current(-2));
    assert_eq!(run_seek(&mut r, step), Err("before the start"));
    assert_eq!((position(&r), r.buffer()), (1, &b"bcd"[..]));

    let step = r.seek_relative(i64::MIN).unwrap();
    assert_eq!(run_seek(&mut r, step), Err("before the start"));
    assert_eq!((position(&r), r.buffer(), r.get_ref().at), (1, &b""[..], 1));
    let mut two = [0u8; 2];
    assert_eq!(read(&mut r, &mut two), Ok(2));
    assert_eq!(&two, b"bc");
}
