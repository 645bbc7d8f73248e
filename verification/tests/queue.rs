use nusb::transfer::TransferError;
use viking_io::command::{Command, ScalarResponse, SliceResponse};
use viking_io::queue::Planned;
use viking_io::{
    CmdShared, CommandQueue, Destination, Flush, ProtocolError, RequestError, Scattered,
};

/// A device that answers every transfer command with the bytes it was sent.
fn echo(request: &[u8]) -> Result<Vec<u8>, TransferError> {
    let mut response = vec![request[0], 0];
    let mut i = 2;
    while i < request.len() {
        let len = request[i + 1] as usize;
        response.extend_from_slice(&request[i + 2..i + 2 + len]);
        i += 2 + len;
    }
    Ok(response)
}

struct Rig {
    queue: CommandQueue,
    shared: CmdShared,
    sent: Vec<Vec<u8>>,
    got: Vec<Scattered>,
}

impl Rig {
    fn new(max_command_len: usize, max_response_len: usize) -> Rig {
        Rig {
            queue: CommandQueue::new(max_command_len, max_response_len),
            shared: CmdShared::new(),
            sent: Vec::new(),
            got: Vec::new(),
        }
    }

    fn settle(&mut self, flush: Flush, device: &dyn Fn(&[u8]) -> Result<Vec<u8>, TransferError>) {
        let Flush { batch, reads } = flush;
        let transfer = batch.run(&mut self.shared, 64);
        self.sent.push(transfer.request.clone());
        let outcome = transfer.complete(device(&transfer.request));
        let scattered = self.queue.complete(reads, outcome);
        self.got.extend(scattered);
    }

    fn transfer(
        &mut self,
        data: &[u8],
        dest: Destination,
        device: &dyn Fn(&[u8]) -> Result<Vec<u8>, TransferError>,
    ) {
        let cmd = Command::new(4, 3, data, SliceResponse::new(data.len()));
        if let Some(flush) = self.queue.push_read(cmd, dest) {
            self.settle(flush, device);
        }
    }

    fn finish(
        mut self,
        device: &dyn Fn(&[u8]) -> Result<Vec<u8>, TransferError>,
    ) -> (Result<(), RequestError>, Vec<Vec<u8>>, Vec<Scattered>) {
        let flush = self.queue.flush();
        self.settle(flush, device);
        (self.queue.finish(), self.sent, self.got)
    }
}

fn at(buffer: usize) -> Destination {
    Destination { buffer, offset: 0 }
}

#[test]
fn twenty_transfers_flush_by_themselves() {
    let mut rig = Rig::new(16, 1023);
    let data: Vec<[u8; 4]> = (0..20u8).map(|i| [i, i + 100, i + 50, 0xee]).collect();
    for (i, chunk) in data.iter().enumerate() {
        rig.transfer(chunk, at(i), &echo);
    }
    let (result, sent, got) = rig.finish(&echo);
    assert_eq!(result, Ok(()));

    // two commands of six bytes fit behind the header, a third does not
    assert_eq!(sent.len(), 10);
    for (k, request) in sent.iter().enumerate() {
        assert_eq!(request.len(), 14);
        assert_eq!(request[0], k as u8);
        assert_eq!(request[1], 0);
        let mut expected = vec![k as u8, 0];
        for chunk in &data[2 * k..2 * k + 2] {
            expected.extend_from_slice(&[0xc4, 4]);
            expected.extend_from_slice(chunk);
        }
        assert_eq!(request, &expected);
    }

    assert_eq!(got.len(), 20);
    for (i, scattered) in got.iter().enumerate() {
        assert_eq!(scattered.dest, at(i));
        assert_eq!(scattered.data, data[i].to_vec());
    }
}

#[test]
fn everything_in_one_batch_where_it_fits() {
    let mut rig = Rig::new(1023, 1023);
    for i in 0..20u8 {
        rig.transfer(&[i, 1, 2, 3], at(i as usize), &echo);
    }
    assert!(rig.sent.is_empty());
    let (result, sent, got) = rig.finish(&echo);
    assert_eq!(result, Ok(()));
    assert_eq!(sent.len(), 1);
    assert_eq!(sent[0].len(), 2 + 20 * 6);
    assert_eq!(got.len(), 20);
    assert_eq!(got[19].data, vec![19, 1, 2, 3]);
}

#[test]
fn response_limit_flushes_too() {
    let mut rig = Rig::new(1023, 10);
    for i in 0..5u8 {
        rig.transfer(&[i; 4], at(i as usize), &echo);
    }
    let (result, sent, got) = rig.finish(&echo);
    assert_eq!(result, Ok(()));
    // eight bytes of answers fit in ten, twelve do not
    assert_eq!(sent.len(), 3);
    assert_eq!(sent[0].len(), 14);
    assert_eq!(sent[1].len(), 14);
    assert_eq!(sent[2].len(), 8);
    assert_eq!(got.len(), 5);
    for (i, s) in got.iter().enumerate() {
        assert_eq!(s.data, vec![i as u8; 4]);
    }
}

#[test]
fn plain_pushes_need_no_destination() {
    let mut rig = Rig::new(8, 1023);
    for op in 0..4u8 {
        let cmd = Command::new(2, op, (), ());
        assert!(rig.queue.push(cmd).is_none());
    }
    let cmd = Command::new(2, 0, 7u8, ScalarResponse::<u8>::new());
    assert!(rig.queue.push(cmd).is_none());
    // 2 + 4 + 2 bytes so far; one more byte does not fit
    let flush = rig.queue.push(Command::new(9, 1, (), ())).unwrap();
    assert!(flush.reads.is_empty());
    assert_eq!(flush.batch.response_len(), 1);
    let transfer = flush.batch.run(&mut rig.shared, 64);
    assert_eq!(transfer.request, vec![0, 0, 0x02, 0x42, 0x82, 0xc2, 0x02, 0x07]);
    let last = rig.queue.flush();
    let transfer = last.batch.run(&mut rig.shared, 64);
    assert_eq!(transfer.request, vec![1, 0, 0x49]);
}

#[test]
fn sequence_mismatch_sticks() {
    let wrong = |request: &[u8]| -> Result<Vec<u8>, TransferError> {
        let mut response = echo(request).unwrap();
        response[0] = response[0].wrapping_add(1);
        Ok(response)
    };
    let mut rig = Rig::new(16, 1023);
    rig.transfer(&[1; 4], at(0), &wrong);
    rig.transfer(&[2; 4], at(1), &wrong);
    assert!(!rig.queue.has_failed());
    // the third does not fit: the first two are run, and fail
    rig.transfer(&[3; 4], at(2), &wrong);
    assert_eq!(rig.sent.len(), 1);
    assert!(rig.queue.has_failed());
    // from here on pushes are ignored
    for i in 3..20u8 {
        rig.transfer(&[i; 4], at(i as usize), &echo);
    }
    assert_eq!(rig.sent.len(), 1);
    let (result, sent, got) = rig.finish(&echo);
    assert_eq!(
        result,
        Err(RequestError::Protocol(ProtocolError::SeqMismatch))
    );
    assert_eq!(
        RequestError::Protocol(ProtocolError::SeqMismatch).message(),
        "response sequence mismatch"
    );
    // the last flush still runs what was in the batch when the failure came
    assert_eq!(sent.len(), 2);
    assert_eq!(sent[1], vec![1, 0, 0xc4, 4, 3, 3, 3, 3]);
    assert_eq!(
        got,
        vec![Scattered {
            dest: at(2),
            data: vec![3; 4]
        }]
    );
}

#[test]
fn first_failure_is_the_one_reported() {
    let stall = |_: &[u8]| -> Result<Vec<u8>, TransferError> { Err(TransferError::Stall) };
    let gone = |_: &[u8]| -> Result<Vec<u8>, TransferError> { Err(TransferError::Disconnected) };
    let mut rig = Rig::new(16, 1023);
    rig.transfer(&[1; 4], at(0), &stall);
    rig.transfer(&[2; 4], at(1), &stall);
    rig.transfer(&[3; 4], at(2), &stall);
    let (result, sent, got) = rig.finish(&gone);
    assert_eq!(result, Err(RequestError::Usb(TransferError::Stall)));
    assert_eq!(sent.len(), 2);
    assert!(got.is_empty());
}

#[test]
fn failure_of_the_last_flush_is_reported() {
    let stall = |_: &[u8]| -> Result<Vec<u8>, TransferError> { Err(TransferError::Stall) };
    let mut rig = Rig::new(1023, 1023);
    rig.transfer(&[1; 4], at(0), &echo);
    let (result, _, got) = rig.finish(&stall);
    assert_eq!(result, Err(RequestError::Usb(TransferError::Stall)));
    assert!(got.is_empty());
}

#[test]
fn device_status_is_reported_with_its_byte() {
    let failing = |request: &[u8]| -> Result<Vec<u8>, TransferError> { Ok(vec![request[0], 3]) };
    let mut rig = Rig::new(1023, 1023);
    rig.transfer(&[1; 4], at(0), &echo);
    let (result, _, _) = rig.finish(&failing);
    assert_eq!(
        result,
        Err(RequestError::Protocol(ProtocolError::DeviceStatus(3)))
    );
}

#[test]
fn response_that_lacks_an_answer_scatters_nothing() {
    let short = |request: &[u8]| -> Result<Vec<u8>, TransferError> {
        let mut response = echo(request).unwrap();
        response.pop();
        Ok(response)
    };
    let mut rig = Rig::new(1023, 1023);
    rig.transfer(&[1; 4], at(0), &echo);
    rig.transfer(&[2; 4], at(1), &echo);
    let (result, _, got) = rig.finish(&short);
    assert_eq!(
        result,
        Err(RequestError::Protocol(ProtocolError::TooShort))
    );
    assert!(got.is_empty());
}

#[test]
fn empty_queue_finishes_with_an_empty_batch() {
    let rig = Rig::new(1023, 1023);
    let (result, sent, got) = rig.finish(&echo);
    assert_eq!(result, Ok(()));
    assert_eq!(sent, vec![vec![0, 0]]);
    assert!(got.is_empty());
}

#[test]
fn in_place_push_is_a_read_of_the_same_bytes() {
    let mut rig = Rig::new(1023, 1023);
    let buf = [5u8, 6, 7];
    let flush = rig.queue.push_read_in_place(&buf, at(9), |b| {
        Command::new(4, 3, b, SliceResponse::new(b.len()))
    });
    assert!(flush.is_none());
    let (result, sent, got) = rig.finish(&echo);
    assert_eq!(result, Ok(()));
    assert_eq!(sent, vec![vec![0, 0, 0xc4, 3, 5, 6, 7]]);
    assert_eq!(
        got,
        vec![Scattered {
            dest: at(9),
            data: vec![5, 6, 7]
        }]
    );
}

#[test]
fn plans_are_pushed_until_a_flush_is_due() {
    let plan: Vec<Planned> = (0..5u8)
        .map(|i| Planned {
            command: Command::new(4, 3, &[i; 4][..], SliceResponse::new(4)).encode(),
            dest: if i % 2 == 0 {
                Some(Destination {
                    buffer: 0,
                    offset: 4 * i as usize,
                })
            } else {
                None
            },
        })
        .collect();
    let mut rig = Rig::new(16, 1023);
    let mut from = 0;
    let mut stops = Vec::new();
    loop {
        let (next, flush) = rig.queue.push_all(&plan, from);
        from = next;
        stops.push(next);
        match flush {
            Some(flush) => rig.settle(flush, &echo),
            None => break,
        }
    }
    assert_eq!(stops, vec![3, 5, 5]);
    let (result, sent, got) = rig.finish(&echo);
    assert_eq!(result, Ok(()));
    assert_eq!(sent.len(), 3);
    assert_eq!(sent[0].len(), 14);
    assert_eq!(sent[1].len(), 14);
    assert_eq!(sent[2].len(), 8);
    let dests: Vec<usize> = got.iter().map(|s| s.dest.offset).collect();
    assert_eq!(dests, vec![0, 8, 16]);
    assert_eq!(got[1].data, vec![2; 4]);
}

#[test]
fn failed_queue_runs_through_a_plan_without_a_flush() {
    let stall = |_: &[u8]| -> Result<Vec<u8>, TransferError> { Err(TransferError::Stall) };
    let plan: Vec<Planned> = (0..9u8)
        .map(|i| Planned {
            command: Command::new(4, 3, &[i; 4][..], ()).encode(),
            dest: None,
        })
        .collect();
    let mut rig = Rig::new(16, 1023);
    let (next, flush) = rig.queue.push_all(&plan, 0);
    assert_eq!(next, 3);
    rig.settle(flush.unwrap(), &stall);
    let (next, flush) = rig.queue.push_all(&plan, next);
    assert_eq!(next, 9);
    assert!(flush.is_none());
}

#[test]
fn queue_accepts_what_fits_a_batch_of_its_own() {
    let queue = CommandQueue::new(8, 4);
    let four: &[u8] = &[1, 2, 3, 4];
    let five: &[u8] = &[1, 2, 3, 4, 5];
    assert!(queue.accepts(&Command::new(1, 3, four, ())));
    assert!(!queue.accepts(&Command::new(1, 3, five, ())));
    assert!(queue.accepts(&Command::new(1, 2, 4u8, SliceResponse::new(4))));
    assert!(!queue.accepts(&Command::new(1, 2, 5u8, SliceResponse::new(5))));

    let fits = Planned {
        command: Command::new(1, 3, four, ()).encode(),
        dest: None,
    };
    let too_long = Planned {
        command: Command::new(1, 3, five, ()).encode(),
        dest: None,
    };
    assert!(queue.accepts_all(&vec![]));
    assert!(queue.accepts_all(&vec![fits]));
    let fits = Planned {
        command: Command::new(1, 3, four, ()).encode(),
        dest: None,
    };
    assert!(!queue.accepts_all(&vec![fits, too_long]));
}

#[test]
fn failed_queue_ignores_even_what_it_could_not_take() {
    let stall = |_: &[u8]| -> Result<Vec<u8>, TransferError> { Err(TransferError::Stall) };
    let mut rig = Rig::new(8, 1023);
    let flush = rig.queue.flush();
    rig.settle(flush, &stall);
    assert!(rig.queue.has_failed());
    let long = [0u8; 200];
    assert!(rig
        .queue
        .push(Command::new(1, 3, &long[..], ()))
        .is_none());
    let last = rig.queue.flush();
    assert!(last.batch.is_empty());
}
