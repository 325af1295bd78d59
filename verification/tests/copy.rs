use ss_relay::copy::{TransferState, BUFFER_SIZE};
use ss_relay::{
    copy_bidirectional, Cipher, CopyBidirectional, CopyBuffer, Direction, Event, Poll, Progress,
    RelayError, Request,
};
use std::collections::VecDeque;

/// A stand-in for the stream cipher: adds a keystream that depends on the
/// key, the IV and the position in the stream.
struct Toy {
    key: u8,
    iv_len: usize,
    seed: u8,
    enc: Option<(Vec<u8>, usize)>,
    dec: Option<(Vec<u8>, usize)>,
}

fn keystream(key: u8, iv: &[u8], pos: usize) -> u8 {
    let salt = if iv.is_empty() { 0 } else { iv[pos % iv.len()] };
    key.wrapping_mul(31).wrapping_add(salt).wrapping_add((pos % 251) as u8).wrapping_mul(7) | 1
}

impl Toy {
    fn new(key: u8, iv_len: usize, seed: u8) -> Toy {
        Toy { key, iv_len, seed, enc: None, dec: None }
    }

    fn init_encrypt(&mut self) -> Vec<u8> {
        assert!(self.enc.is_none(), "the encryptor is set up once");
        let iv: Vec<u8> = (0..self.iv_len).map(|i| self.seed.wrapping_add((i as u8).wrapping_mul(13))).collect();
        self.enc = Some((iv.clone(), 0));
        iv
    }

    fn init_decrypt(&mut self, iv: &[u8]) {
        assert!(self.dec.is_none(), "the decryptor is set up once");
        assert_eq!(iv.len(), self.iv_len);
        self.dec = Some((iv.to_vec(), 0));
    }

    fn encrypt(&mut self, data: &[u8]) -> Vec<u8> {
        let key = self.key;
        let (iv, pos) = self.enc.as_mut().expect("encrypt before the encryptor is set up");
        let out = data.iter().enumerate().map(|(i, b)| b.wrapping_add(keystream(key, iv, *pos + i))).collect();
        *pos += data.len();
        out
    }

    fn decrypt(&mut self, data: &[u8]) -> Vec<u8> {
        let key = self.key;
        let (iv, pos) = self.dec.as_mut().expect("decrypt before the decryptor is set up");
        let out = data.iter().enumerate().map(|(i, b)| b.wrapping_sub(keystream(key, iv, *pos + i))).collect();
        *pos += data.len();
        out
    }
}

fn seal(key: u8, iv: &[u8], plain: &[u8]) -> Vec<u8> {
    let mut wire = iv.to_vec();
    wire.extend(plain.iter().enumerate().map(|(i, b)| b.wrapping_add(keystream(key, iv, i))));
    wire
}

/// One end of a flow: what its source will deliver, read by read, and what
/// its destination has taken.
struct Flow {
    source: VecDeque<Vec<u8>>,
    sink: Vec<u8>,
    accept: usize,
    reads: usize,
    flushes: usize,
    closes: usize,
    log: Vec<Request>,
}

impl Flow {
    fn new(chunks: &[Vec<u8>], accept: usize) -> Flow {
        Flow {
            source: chunks.iter().cloned().collect(),
            sink: Vec::new(),
            accept,
            reads: 0,
            flushes: 0,
            closes: 0,
            log: Vec::new(),
        }
    }

    fn perform(&mut self, toy: &mut Toy, request: Request) -> Event {
        self.log.push(request.clone());
        match request {
            Request::InitEncrypt => Event::IvGenerated(toy.init_encrypt()),
            Request::InitDecrypt(iv) => {
                toy.init_decrypt(&iv);
                Event::DecryptReady
            }
            Request::Read(max) => {
                self.reads += 1;
                match self.source.pop_front() {
                    None => Event::Read(Vec::new()),
                    Some(mut chunk) => {
                        if chunk.len() > max {
                            let rest = chunk.split_off(max);
                            self.source.push_front(rest);
                        }
                        Event::Read(chunk)
                    }
                }
            }
            Request::Encrypt(bytes) => Event::Transformed(toy.encrypt(&bytes)),
            Request::Decrypt(bytes) => Event::Transformed(toy.decrypt(&bytes)),
            Request::Write(bytes) => {
                assert!(!bytes.is_empty(), "a write offers something");
                let n = bytes.len().min(self.accept);
                self.sink.extend_from_slice(&bytes[..n]);
                Event::Written(n)
            }
            Request::Flush => {
                self.flushes += 1;
                Event::Flushed
            }
            Request::Close => {
                self.closes += 1;
                Event::Closed
            }
        }
    }
}

fn run_pump(
    pump: &mut CopyBuffer,
    cipher: &mut Cipher,
    toy: &mut Toy,
    direction: Direction,
    flow: &mut Flow,
) -> Result<u64, RelayError> {
    let mut event = Event::Resume;
    for _ in 0..100_000 {
        match pump.poll_copy(cipher, direction, event) {
            Poll::Pending(request) => event = flow.perform(toy, request),
            Poll::Ready(n) => return Ok(n),
            Poll::Failed(e) => return Err(e),
        }
    }
    panic!("the pump does not come to an end");
}

fn pattern(len: usize, salt: u8) -> Vec<u8> {
    (0..len).map(|i| (i as u8).wrapping_mul(17).wrapping_add(salt)).collect()
}

fn chunks_of(data: &[u8], sizes: &[usize]) -> Vec<Vec<u8>> {
    let mut out = Vec::new();
    let mut at = 0;
    let mut k = 0;
    while at < data.len() {
        let n = sizes[k % sizes.len()].min(data.len() - at);
        out.push(data[at..at + n].to_vec());
        at += n;
        k += 1;
    }
    out
}

#[test]
fn buffer_size_is_two_kilobytes() {
    assert_eq!(BUFFER_SIZE, 2048);
}

#[test]
fn new_pump_is_empty() {
    let pump = CopyBuffer::new();
    assert_eq!(pump.transferred(), 0);
    assert_eq!(pump.buffered(), 0);
    assert!(!pump.is_read_done());
}

#[test]
fn encrypt_pump_step_by_step() {
    let mut cipher = Cipher::new(2);
    let mut pump = CopyBuffer::new();
    assert_eq!(pump.poll_encrypt(&mut cipher, Event::Resume), Poll::Pending(Request::InitEncrypt));
    // the IV goes out first, and is not counted
    assert_eq!(
        pump.poll_encrypt(&mut cipher, Event::IvGenerated(vec![0xA1, 0xA2])),
        Poll::Pending(Request::Write(vec![0xA1, 0xA2]))
    );
    assert_eq!(pump.buffered(), 2);
    assert_eq!(
        pump.poll_encrypt(&mut cipher, Event::Written(1)),
        Poll::Pending(Request::Write(vec![0xA2]))
    );
    // an activation without news asks again
    assert_eq!(pump.poll_encrypt(&mut cipher, Event::Resume), Poll::Pending(Request::Write(vec![0xA2])));
    assert_eq!(pump.poll_encrypt(&mut cipher, Event::Written(1)), Poll::Pending(Request::Read(2048)));
    assert_eq!(pump.transferred(), 0);
    // what was read is handed to the cipher, and what comes back is written
    assert_eq!(
        pump.poll_encrypt(&mut cipher, Event::Read(vec![1, 2, 3])),
        Poll::Pending(Request::Encrypt(vec![1, 2, 3]))
    );
    assert_eq!(
        pump.poll_encrypt(&mut cipher, Event::Transformed(vec![101, 102, 103])),
        Poll::Pending(Request::Write(vec![101, 102, 103]))
    );
    assert_eq!(
        pump.poll_encrypt(&mut cipher, Event::Written(2)),
        Poll::Pending(Request::Write(vec![103]))
    );
    assert_eq!(pump.transferred(), 2);
    assert_eq!(pump.poll_encrypt(&mut cipher, Event::Written(1)), Poll::Pending(Request::Read(2048)));
    assert_eq!(pump.transferred(), 3);
    // the end of the source: flush, then done
    assert_eq!(pump.poll_encrypt(&mut cipher, Event::Read(vec![])), Poll::Pending(Request::Flush));
    assert!(pump.is_read_done());
    assert_eq!(pump.poll_encrypt(&mut cipher, Event::Resume), Poll::Pending(Request::Flush));
    assert_eq!(pump.poll_encrypt(&mut cipher, Event::Flushed), Poll::Ready(3));
}

#[test]
fn decrypt_pump_step_by_step() {
    let mut cipher = Cipher::new(3);
    let mut pump = CopyBuffer::new();
    assert_eq!(pump.poll_decrypt(&mut cipher, Event::Resume), Poll::Pending(Request::Read(3)));
    assert_eq!(pump.poll_decrypt(&mut cipher, Event::Read(vec![7])), Poll::Pending(Request::Read(2)));
    assert_eq!(
        pump.poll_decrypt(&mut cipher, Event::Read(vec![8, 9])),
        Poll::Pending(Request::InitDecrypt(vec![7, 8, 9]))
    );
    assert_eq!(pump.poll_decrypt(&mut cipher, Event::DecryptReady), Poll::Pending(Request::Read(2048)));
    assert_eq!(
        pump.poll_decrypt(&mut cipher, Event::Read(vec![50, 60])),
        Poll::Pending(Request::Decrypt(vec![50, 60]))
    );
    assert_eq!(
        pump.poll_decrypt(&mut cipher, Event::Transformed(vec![5, 6])),
        Poll::Pending(Request::Write(vec![5, 6]))
    );
    assert_eq!(pump.poll_decrypt(&mut cipher, Event::Written(2)), Poll::Pending(Request::Read(2048)));
    assert_eq!(pump.poll_decrypt(&mut cipher, Event::Read(vec![])), Poll::Pending(Request::Flush));
    assert_eq!(pump.poll_decrypt(&mut cipher, Event::Flushed), Poll::Ready(2));
    assert_eq!(pump.transferred(), 2);
}

#[test]
fn events_that_answer_nothing_change_nothing() {
    let mut cipher = Cipher::new(0);
    let mut pump = CopyBuffer::new();
    let _ = pump.poll_encrypt(&mut cipher, Event::IvGenerated(vec![]));
    assert_eq!(pump.poll_encrypt(&mut cipher, Event::Resume), Poll::Pending(Request::Read(2048)));
    // not what was asked for
    assert_eq!(pump.poll_encrypt(&mut cipher, Event::Written(5)), Poll::Pending(Request::Read(2048)));
    assert_eq!(pump.poll_encrypt(&mut cipher, Event::Flushed), Poll::Pending(Request::Read(2048)));
    assert_eq!(pump.poll_encrypt(&mut cipher, Event::Closed), Poll::Pending(Request::Read(2048)));
    assert_eq!(
        pump.poll_encrypt(&mut cipher, Event::Transformed(vec![1])),
        Poll::Pending(Request::Read(2048))
    );
    // more than the buffer holds
    assert_eq!(
        pump.poll_encrypt(&mut cipher, Event::Read(vec![0; 2049])),
        Poll::Pending(Request::Read(2048))
    );
    assert_eq!(
        pump.poll_encrypt(&mut cipher, Event::Read(vec![4, 5])),
        Poll::Pending(Request::Encrypt(vec![4, 5]))
    );
    // the cipher must hand back as many bytes as it was given
    assert_eq!(
        pump.poll_encrypt(&mut cipher, Event::Transformed(vec![1, 2, 3])),
        Poll::Pending(Request::Encrypt(vec![4, 5]))
    );
    assert_eq!(
        pump.poll_encrypt(&mut cipher, Event::Read(vec![9])),
        Poll::Pending(Request::Encrypt(vec![4, 5]))
    );
    assert_eq!(
        pump.poll_encrypt(&mut cipher, Event::Transformed(vec![8, 9])),
        Poll::Pending(Request::Write(vec![8, 9]))
    );
    // the destination cannot take more than it was offered
    assert_eq!(pump.poll_encrypt(&mut cipher, Event::Written(3)), Poll::Pending(Request::Write(vec![8, 9])));
    assert_eq!(pump.transferred(), 0);
    assert_eq!(pump.poll_encrypt(&mut cipher, Event::Written(2)), Poll::Pending(Request::Read(2048)));
    assert_eq!(pump.transferred(), 2);
}

#[test]
fn a_full_buffer_is_read_at_once() {
    let mut cipher = Cipher::new(0);
    let mut pump = CopyBuffer::new();
    let _ = pump.poll_encrypt(&mut cipher, Event::IvGenerated(vec![]));
    let data = pattern(2048, 3);
    assert_eq!(
        pump.poll_encrypt(&mut cipher, Event::Read(data.clone())),
        Poll::Pending(Request::Encrypt(data.clone()))
    );
    assert_eq!(pump.buffered(), 2048);
    assert_eq!(
        pump.poll_encrypt(&mut cipher, Event::Transformed(data.clone())),
        Poll::Pending(Request::Write(data.clone()))
    );
    assert_eq!(
        pump.poll_encrypt(&mut cipher, Event::Written(2047)),
        Poll::Pending(Request::Write(vec![data[2047]]))
    );
    assert_eq!(pump.transferred(), 2047);
}

#[test]
fn count_equals_source_length() {
    for (len, sizes, accept) in [
        (0usize, vec![1usize], 10usize),
        (1, vec![1], 1),
        (5000, vec![2048], 2048),
        (5000, vec![1, 2, 3, 700], 2048),
        (5000, vec![4096], 7),
        (12345, vec![100, 2048, 1], 1000),
    ] {
        let plain = pattern(len, 11);
        for direction in [Direction::Encrypt, Direction::Decrypt] {
            let mut cipher = Cipher::new(0);
            let mut toy = Toy::new(3, 0, 0);
            let mut flow = Flow::new(&chunks_of(&plain, &sizes), accept);
            let mut pump = CopyBuffer::new();
            let r = run_pump(&mut pump, &mut cipher, &mut toy, direction, &mut flow);
            assert_eq!(r, Ok(len as u64));
            assert_eq!(pump.transferred(), len as u64);
            assert_eq!(flow.sink.len(), len);
            assert_eq!(flow.flushes, 1);
        }
    }
}

#[test]
fn count_leaves_out_the_iv() {
    let plain = pattern(3000, 5);
    // the side that encrypts sends 16 bytes of IV ahead
    let mut cipher = Cipher::new(16);
    let mut toy = Toy::new(9, 16, 40);
    let mut flow = Flow::new(&chunks_of(&plain, &[999]), 100);
    let mut pump = CopyBuffer::new();
    let r = run_pump(&mut pump, &mut cipher, &mut toy, Direction::Encrypt, &mut flow);
    assert_eq!(r, Ok(3000));
    assert_eq!(flow.sink.len(), 3016);
    let iv = cipher.encrypt_iv().unwrap();
    assert_eq!(flow.sink, seal(9, &iv, &plain));
    // the side that decrypts takes 16 bytes of IV off
    let wire = flow.sink;
    let mut cipher = Cipher::new(16);
    let mut toy = Toy::new(9, 16, 0);
    let mut flow = Flow::new(&chunks_of(&wire, &[5, 1, 2000]), 64);
    let mut pump = CopyBuffer::new();
    let r = run_pump(&mut pump, &mut cipher, &mut toy, Direction::Decrypt, &mut flow);
    assert_eq!(r, Ok(3000));
    assert_eq!(flow.sink, plain);
    assert_eq!(cipher.decrypt_iv(), iv);
}

#[test]
fn iv_is_the_first_thing_on_the_wire() {
    let mut cipher = Cipher::new(8);
    let mut toy = Toy::new(1, 8, 200);
    let mut flow = Flow::new(&[], 3);
    let mut pump = CopyBuffer::new();
    let r = run_pump(&mut pump, &mut cipher, &mut toy, Direction::Encrypt, &mut flow);
    // nothing to relay: the IV alone goes out, and counts for nothing
    assert_eq!(r, Ok(0));
    assert_eq!(Some(flow.sink.clone()), cipher.encrypt_iv());
    assert_eq!(flow.sink.len(), 8);
    assert_eq!(flow.log[0], Request::InitEncrypt);
    assert_eq!(flow.log[1], Request::Write(flow.sink.clone()));
}

#[test]
fn encryptor_set_up_before_sends_no_second_iv() {
    let mut cipher = Cipher::new(4);
    let mut toy = Toy::new(1, 4, 77);
    let iv = toy.init_encrypt();
    let _ = cipher.handshake(Direction::Encrypt, &Event::IvGenerated(iv.clone()));
    let plain = pattern(10, 0);
    let mut flow = Flow::new(&[plain.clone()], 100);
    let mut pump = CopyBuffer::new();
    let r = run_pump(&mut pump, &mut cipher, &mut toy, Direction::Encrypt, &mut flow);
    assert_eq!(r, Ok(10));
    assert_eq!(flow.sink, seal(1, &iv, &plain)[4..].to_vec());
}

#[test]
fn round_trip_through_two_pumps() {
    for (len, sizes, wire_sizes, accept) in [
        (0usize, vec![1usize], vec![1usize], 1usize),
        (1, vec![1], vec![1], 1),
        (4096, vec![2048], vec![1], 2048),
        (7000, vec![3, 5, 7], vec![11, 13, 2048, 1], 17),
        (10000, vec![5000], vec![4096], 1),
    ] {
        let plain = pattern(len, 99);
        let mut near_cipher = Cipher::new(12);
        let mut near_toy = Toy::new(0x5A, 12, 3);
        let mut near_flow = Flow::new(&chunks_of(&plain, &sizes), accept);
        let mut near = CopyBuffer::new();
        let sent = run_pump(&mut near, &mut near_cipher, &mut near_toy, Direction::Encrypt, &mut near_flow);
        assert_eq!(sent, Ok(len as u64));

        let mut far_cipher = Cipher::new(12);
        let mut far_toy = Toy::new(0x5A, 12, 200);
        let mut far_flow = Flow::new(&chunks_of(&near_flow.sink, &wire_sizes), accept);
        let mut far = CopyBuffer::new();
        let got = run_pump(&mut far, &mut far_cipher, &mut far_toy, Direction::Decrypt, &mut far_flow);
        assert_eq!(got, Ok(len as u64));
        assert_eq!(far_flow.sink, plain);
        assert_eq!(Some(far_cipher.decrypt_iv()), near_cipher.encrypt_iv());
    }
}

#[test]
fn write_zero_is_fatal() {
    for direction in [Direction::Encrypt, Direction::Decrypt] {
        let mut cipher = Cipher::new(0);
        let mut toy = Toy::new(1, 0, 0);
        let mut flow = Flow::new(&[vec![1, 2, 3]], 100);
        let mut pump = CopyBuffer::new();
        let mut event = Event::Resume;
        let offered = loop {
            match pump.poll_copy(&mut cipher, direction, event) {
                Poll::Pending(Request::Write(bytes)) => break bytes,
                Poll::Pending(request) => event = flow.perform(&mut toy, request),
                other => panic!("unexpected {:?}", other),
            }
        };
        assert_eq!(offered.len(), 3);
        assert_eq!(
            pump.poll_copy(&mut cipher, direction, Event::Written(0)),
            Poll::Failed(RelayError::WriteZero)
        );
        // nothing moved, nothing was counted
        assert_eq!(pump.transferred(), 0);
        assert_eq!(pump.buffered(), 3);
        assert_eq!(
            pump.poll_copy(&mut cipher, direction, Event::Resume),
            Poll::Pending(Request::Write(offered.clone()))
        );
        // and every further refusal fails again
        assert_eq!(
            pump.poll_copy(&mut cipher, direction, Event::Written(0)),
            Poll::Failed(RelayError::WriteZero)
        );
    }
}

#[test]
fn write_zero_of_the_iv_is_fatal_too() {
    let mut cipher = Cipher::new(4);
    let mut toy = Toy::new(1, 4, 0);
    let mut flow = Flow::new(&[vec![1, 2, 3]], 0);
    let mut pump = CopyBuffer::new();
    let mut event = Event::Resume;
    let mut steps = 0;
    let r = loop {
        steps += 1;
        assert!(steps < 10, "a refused write must not be retried for ever");
        match pump.poll_encrypt(&mut cipher, event) {
            Poll::Pending(Request::Write(_)) => event = Event::Written(0),
            Poll::Pending(request) => event = flow.perform(&mut toy, request),
            other => break other,
        }
    };
    assert_eq!(r, Poll::Failed(RelayError::WriteZero));
    assert_eq!(flow.reads, 0);
}

#[test]
fn end_of_stream_inside_the_iv_fails_the_pump() {
    let mut cipher = Cipher::new(16);
    let mut toy = Toy::new(1, 16, 0);
    let mut flow = Flow::new(&[vec![1, 2, 3, 4, 5]], 100);
    let mut pump = CopyBuffer::new();
    let r = run_pump(&mut pump, &mut cipher, &mut toy, Direction::Decrypt, &mut flow);
    assert_eq!(r, Err(RelayError::UnexpectedEof));
    assert!(flow.sink.is_empty());
    assert_eq!(flow.log, vec![Request::Read(16), Request::Read(11)]);
}

#[test]
fn iv_reads_never_reach_into_the_payload() {
    let mut cipher = Cipher::new(4);
    let mut toy = Toy::new(1, 4, 0);
    let wire = seal(1, &[9, 8, 7, 6], &[1, 2, 3]);
    let mut flow = Flow::new(&[wire], 100);
    let mut pump = CopyBuffer::new();
    let r = run_pump(&mut pump, &mut cipher, &mut toy, Direction::Decrypt, &mut flow);
    assert_eq!(r, Ok(3));
    assert_eq!(flow.sink, vec![1, 2, 3]);
    assert_eq!(flow.log[0], Request::Read(4));
    assert_eq!(flow.log[1], Request::InitDecrypt(vec![9, 8, 7, 6]));
    assert_eq!(flow.log[2], Request::Read(2048));
}

fn drive(
    relay: &mut CopyBidirectional,
    toy: &mut Toy,
    a_to_b: &mut Flow,
    b_to_a: &mut Flow,
) -> (Result<(u64, u64), RelayError>, usize) {
    let mut a_event = Event::Resume;
    let mut b_event = Event::Resume;
    for activation in 1..1_000_000 {
        match relay.poll(a_event, b_event) {
            Progress::Ready(a, b) => return (Ok((a, b)), activation),
            Progress::Failed(e) => return (Err(e), activation),
            Progress::Pending(a, b) => {
                a_event = match a {
                    Poll::Pending(request) => a_to_b.perform(toy, request),
                    _ => Event::Resume,
                };
                b_event = match b {
                    Poll::Pending(request) => b_to_a.perform(toy, request),
                    _ => Event::Resume,
                };
            }
        }
    }
    panic!("the relay does not come to an end");
}

#[test]
fn new_relay_runs_both_directions() {
    let relay = copy_bidirectional(Cipher::new(16));
    assert_eq!(relay.state(Direction::Encrypt), TransferState::Running);
    assert_eq!(relay.state(Direction::Decrypt), TransferState::Running);
    assert_eq!(relay.transferred(Direction::Encrypt), 0);
    assert_eq!(relay.transferred(Direction::Decrypt), 0);
    assert_eq!(relay.cipher().iv_len(), 16);
    assert!(!relay.cipher().is_ready(Direction::Encrypt));
}

#[test]
fn first_activation_asks_both_directions() {
    let mut relay = copy_bidirectional(Cipher::new(16));
    assert_eq!(
        relay.poll(Event::Resume, Event::Resume),
        Progress::Pending(Poll::Pending(Request::InitEncrypt), Poll::Pending(Request::Read(16)))
    );
}

#[test]
fn direction_goes_through_its_states() {
    let mut relay = copy_bidirectional(Cipher::new(0));
    let d = Direction::Encrypt;
    assert_eq!(relay.transfer_one_direction(d, Event::Resume), Poll::Pending(Request::InitEncrypt));
    assert_eq!(
        relay.transfer_one_direction(d, Event::IvGenerated(vec![])),
        Poll::Pending(Request::Read(2048))
    );
    assert_eq!(
        relay.transfer_one_direction(d, Event::Read(vec![1, 2])),
        Poll::Pending(Request::Encrypt(vec![1, 2]))
    );
    assert_eq!(
        relay.transfer_one_direction(d, Event::Transformed(vec![3, 4])),
        Poll::Pending(Request::Write(vec![3, 4]))
    );
    assert_eq!(relay.transfer_one_direction(d, Event::Written(2)), Poll::Pending(Request::Read(2048)));
    assert_eq!(relay.transfer_one_direction(d, Event::Read(vec![])), Poll::Pending(Request::Flush));
    assert_eq!(relay.state(d), TransferState::Running);
    // the pump is done: the destination is closed next
    assert_eq!(relay.transfer_one_direction(d, Event::Flushed), Poll::Pending(Request::Close));
    assert_eq!(relay.state(d), TransferState::ShuttingDown(2));
    assert_eq!(relay.transfer_one_direction(d, Event::Resume), Poll::Pending(Request::Close));
    assert_eq!(relay.transfer_one_direction(d, Event::Flushed), Poll::Pending(Request::Close));
    assert_eq!(relay.state(d), TransferState::ShuttingDown(2));
    assert_eq!(relay.transfer_one_direction(d, Event::Closed), Poll::Ready(2));
    assert_eq!(relay.state(d), TransferState::Done(2));
    // done is done
    assert_eq!(relay.transfer_one_direction(d, Event::Resume), Poll::Ready(2));
    assert_eq!(relay.transfer_one_direction(d, Event::Read(vec![1])), Poll::Ready(2));
    assert_eq!(relay.transfer_one_direction(d, Event::Closed), Poll::Ready(2));
    assert_eq!(relay.state(d), TransferState::Done(2));
    // the other direction has not moved
    assert_eq!(relay.state(Direction::Decrypt), TransferState::Running);
    assert_eq!(relay.transferred(Direction::Decrypt), 0);
}

#[test]
fn relay_reports_both_counts() {
    let up = pattern(5000, 1);
    let down_plain = pattern(9000, 2);
    let down = seal(7, &[4, 4, 4, 4], &down_plain);
    let mut relay = copy_bidirectional(Cipher::new(4));
    let mut toy = Toy::new(7, 4, 100);
    let mut a_to_b = Flow::new(&chunks_of(&up, &[1500]), 1000);
    let mut b_to_a = Flow::new(&chunks_of(&down, &[3, 700, 2048]), 333);
    let (r, _) = drive(&mut relay, &mut toy, &mut a_to_b, &mut b_to_a);
    assert_eq!(r, Ok((5000, 9000)));
    assert_eq!(b_to_a.sink, down_plain);
    assert_eq!(a_to_b.sink, seal(7, &relay.cipher().encrypt_iv().unwrap(), &up));
    assert_eq!(a_to_b.closes, 1);
    assert_eq!(b_to_a.closes, 1);
    assert_eq!(a_to_b.flushes, 1);
    assert_eq!(b_to_a.flushes, 1);
    assert_eq!(relay.state(Direction::Encrypt), TransferState::Done(5000));
    assert_eq!(relay.state(Direction::Decrypt), TransferState::Done(9000));
}

#[test]
fn half_close_keeps_the_other_direction_alive() {
    // the encrypted flow ends at once; the other streams on for 50 reads of 100 bytes
    let down_plain = pattern(5000, 8);
    let down = seal(2, &[], &down_plain);
    let mut relay = copy_bidirectional(Cipher::new(0));
    let mut toy = Toy::new(2, 0, 0);
    let mut a_to_b = Flow::new(&[], 100);
    let mut b_to_a = Flow::new(&chunks_of(&down, &[100]), 100);

    let mut a_event = Event::Resume;
    let mut b_event = Event::Resume;
    let mut activations_after_a_was_done = 0;
    let result = loop {
        match relay.poll(a_event, b_event) {
            Progress::Ready(a, b) => break (a, b),
            Progress::Failed(e) => panic!("failed: {:?}", e),
            Progress::Pending(a, b) => {
                if relay.state(Direction::Encrypt) == TransferState::Done(0) {
                    // done, and waiting with its count
                    assert_eq!(a, Poll::Ready(0));
                    assert_ne!(relay.state(Direction::Decrypt), TransferState::Done(5000));
                    activations_after_a_was_done += 1;
                }
                a_event = match a {
                    Poll::Pending(request) => a_to_b.perform(&mut toy, request),
                    _ => Event::Resume,
                };
                b_event = match b {
                    Poll::Pending(request) => b_to_a.perform(&mut toy, request),
                    _ => Event::Resume,
                };
            }
        }
    };
    assert_eq!(result, (0, 5000));
    assert!(activations_after_a_was_done >= 50);
    assert_eq!(b_to_a.sink, down_plain);
    assert_eq!(a_to_b.closes, 1);
    assert_eq!(b_to_a.closes, 1);
    assert_eq!(a_to_b.reads, 1);
}

#[test]
fn half_close_the_other_way_round() {
    let up = pattern(3000, 4);
    // the tunnel delivers its IV and ends
    let down = seal(2, &[1, 2, 3], &[]);
    let mut relay = copy_bidirectional(Cipher::new(3));
    let mut toy = Toy::new(2, 3, 5);
    let mut a_to_b = Flow::new(&chunks_of(&up, &[10]), 10);
    let mut b_to_a = Flow::new(&[down], 10);
    let (r, _) = drive(&mut relay, &mut toy, &mut a_to_b, &mut b_to_a);
    assert_eq!(r, Ok((3000, 0)));
    assert!(b_to_a.sink.is_empty());
    assert_eq!(a_to_b.sink.len(), 3003);
}

#[test]
fn finished_relay_stays_ready() {
    let mut relay = copy_bidirectional(Cipher::new(0));
    let mut toy = Toy::new(2, 0, 0);
    let mut a_to_b = Flow::new(&[vec![1]], 1);
    let mut b_to_a = Flow::new(&[vec![2, 3]], 1);
    let (r, _) = drive(&mut relay, &mut toy, &mut a_to_b, &mut b_to_a);
    assert_eq!(r, Ok((1, 2)));
    assert_eq!(relay.poll(Event::Resume, Event::Resume), Progress::Ready(1, 2));
    assert_eq!(relay.poll(Event::Closed, Event::Read(vec![1])), Progress::Ready(1, 2));
    assert_eq!(relay.deadline_elapsed(), Progress::Ready(1, 2));
}

#[test]
fn write_zero_fails_the_whole_relay() {
    // the plain side refuses what the tunnel delivers
    let down = seal(2, &[], &[1, 2, 3]);
    let mut relay = copy_bidirectional(Cipher::new(0));
    let mut toy = Toy::new(2, 0, 0);
    let mut a_to_b = Flow::new(&chunks_of(&pattern(100_000, 0), &[2048]), 2048);
    let mut b_to_a = Flow::new(&[down], 0);
    let (r, activations) = drive(&mut relay, &mut toy, &mut a_to_b, &mut b_to_a);
    assert_eq!(r, Err(RelayError::WriteZero));
    assert!(activations < 10);
    assert_eq!(relay.state(Direction::Decrypt), TransferState::Running);
    assert_eq!(relay.transferred(Direction::Decrypt), 0);
}

#[test]
fn failure_of_the_encrypted_flow_comes_first() {
    let mut relay = copy_bidirectional(Cipher::new(0));
    let _ = relay.poll(Event::IvGenerated(vec![]), Event::DecryptReady);
    let _ = relay.poll(Event::Read(vec![1]), Event::Read(vec![2]));
    assert_eq!(
        relay.poll(Event::Transformed(vec![3]), Event::Transformed(vec![4])),
        Progress::Pending(Poll::Pending(Request::Write(vec![3])), Poll::Pending(Request::Write(vec![4])))
    );
    assert_eq!(relay.poll(Event::Written(0), Event::Written(1)), Progress::Failed(RelayError::WriteZero));
    // the step of the other direction was not taken
    assert_eq!(relay.transferred(Direction::Decrypt), 0);
}

#[test]
fn early_end_of_the_tunnel_fails_the_relay() {
    let mut relay = copy_bidirectional(Cipher::new(16));
    let mut toy = Toy::new(2, 16, 0);
    let mut a_to_b = Flow::new(&[vec![1, 2, 3]], 100);
    let mut b_to_a = Flow::new(&[vec![0; 15]], 100);
    let (r, _) = drive(&mut relay, &mut toy, &mut a_to_b, &mut b_to_a);
    assert_eq!(r, Err(RelayError::UnexpectedEof));
}

#[test]
fn deadline_drops_an_unfinished_relay() {
    let mut relay = copy_bidirectional(Cipher::new(0));
    assert_eq!(relay.deadline_elapsed(), Progress::Failed(RelayError::RelayTimeout));
    // one direction done, the other not: still a timeout, and no count is given
    let d = Direction::Encrypt;
    let _ = relay.transfer_one_direction(d, Event::IvGenerated(vec![]));
    let _ = relay.transfer_one_direction(d, Event::Read(vec![]));
    let _ = relay.transfer_one_direction(d, Event::Flushed);
    assert_eq!(relay.transfer_one_direction(d, Event::Closed), Poll::Ready(0));
    assert_eq!(relay.deadline_elapsed(), Progress::Failed(RelayError::RelayTimeout));
}

/// A small generator of numbers that look random and are the same on every run.
struct Lcg(u64);

impl Lcg {
    fn next(&mut self) -> u64 {
        self.0 = self.0.wrapping_mul(6364136223846793005).wrapping_add(1442695040888963407);
        self.0 >> 33
    }

    fn below(&mut self, bound: usize) -> usize {
        (self.next() % bound as u64) as usize
    }
}

#[test]
fn round_trip_with_arbitrary_chunking() {
    let mut rng = Lcg(0x5EED);
    for round in 0..60 {
        let len = rng.below(9000);
        let iv_len = [0usize, 8, 12, 16, 32][rng.below(5)];
        let plain: Vec<u8> = (0..len).map(|_| rng.next() as u8).collect();
        let sizes: Vec<usize> = (0..8).map(|_| 1 + rng.below(3000)).collect();
        let wire_sizes: Vec<usize> = (0..8).map(|_| 1 + rng.below(3000)).collect();
        let accept = 1 + rng.below(2500);
        let key = rng.next() as u8;

        let mut near_cipher = Cipher::new(iv_len);
        let mut near_toy = Toy::new(key, iv_len, round as u8);
        let mut near_flow = Flow::new(&chunks_of(&plain, &sizes), accept);
        let mut near = CopyBuffer::new();
        let sent = run_pump(&mut near, &mut near_cipher, &mut near_toy, Direction::Encrypt, &mut near_flow);
        assert_eq!(sent, Ok(len as u64));
        assert_eq!(near_flow.sink.len(), iv_len + len);
        assert_eq!(near_flow.sink, seal(key, &near_cipher.encrypt_iv().unwrap(), &plain));

        let accept = 1 + rng.below(2500);
        let mut far_cipher = Cipher::new(iv_len);
        let mut far_toy = Toy::new(key, iv_len, 0);
        let mut far_flow = Flow::new(&chunks_of(&near_flow.sink, &wire_sizes), accept);
        let mut far = CopyBuffer::new();
        let got = run_pump(&mut far, &mut far_cipher, &mut far_toy, Direction::Decrypt, &mut far_flow);
        assert_eq!(got, Ok(len as u64));
        assert_eq!(far_flow.sink, plain);
    }
}

#[test]
fn relay_counts_with_arbitrary_chunking() {
    let mut rng = Lcg(0xC0FFEE);
    for round in 0..40 {
        let up_len = rng.below(6000);
        let down_len = rng.below(6000);
        let iv_len = [0usize, 8, 16][rng.below(3)];
        let key = rng.next() as u8;
        let up: Vec<u8> = (0..up_len).map(|_| rng.next() as u8).collect();
        let down_plain: Vec<u8> = (0..down_len).map(|_| rng.next() as u8).collect();
        let peer_iv: Vec<u8> = (0..iv_len).map(|_| rng.next() as u8).collect();
        let down = seal(key, &peer_iv, &down_plain);
        let up_sizes: Vec<usize> = (0..5).map(|_| 1 + rng.below(4000)).collect();
        let down_sizes: Vec<usize> = (0..5).map(|_| 1 + rng.below(4000)).collect();

        let mut relay = copy_bidirectional(Cipher::new(iv_len));
        let mut toy = Toy::new(key, iv_len, round as u8);
        let mut a_to_b = Flow::new(&chunks_of(&up, &up_sizes), 1 + rng.below(2048));
        let mut b_to_a = Flow::new(&chunks_of(&down, &down_sizes), 1 + rng.below(2048));
        let (r, _) = drive(&mut relay, &mut toy, &mut a_to_b, &mut b_to_a);
        assert_eq!(r, Ok((up_len as u64, down_len as u64)));
        assert_eq!(b_to_a.sink, down_plain);
        assert_eq!(a_to_b.sink, seal(key, &relay.cipher().encrypt_iv().unwrap(), &up));
        assert_eq!(relay.cipher().decrypt_iv(), peer_iv);
    }
}
