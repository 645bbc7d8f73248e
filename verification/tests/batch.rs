use nusb::transfer::TransferError;
use viking_io::command::{Command, ScalarResponse, SliceResponse};
use viking_io::{CmdShared, CommandBatch, ProtocolError, RequestError};

#[test]
fn gpio_high_round_trip() {
    let mut shared = CmdShared::new();
    let mut batch = CommandBatch::new(1023, 1023);
    let h = batch.push(Command::new(2, 3, (), ()));
    let transfer = batch.run(&mut shared, 64);
    assert_eq!(transfer.seq, 0);
    assert_eq!(transfer.request, vec![0, 0, 0xc2]);
    assert!(!transfer.zero_length_packet);
    let response = transfer.complete(Ok(vec![0, 0])).unwrap();
    assert_eq!(response.len(), 2);
    assert_eq!(response.get(h), Ok(()));
}

#[test]
fn empty_batch_is_just_the_header() {
    let mut shared = CmdShared::new();
    let batch = CommandBatch::new(1023, 1023);
    assert!(batch.is_empty());
    assert_eq!(batch.response_len(), 0);
    let transfer = batch.run(&mut shared, 64);
    assert_eq!(transfer.request, vec![0, 0]);
}

#[test]
fn sequence_steps_by_one_and_wraps() {
    let mut shared = CmdShared::new();
    let mut last: Option<u8> = None;
    for i in 0..600u32 {
        let transfer = CommandBatch::new(1023, 1023).run(&mut shared, 64);
        assert_eq!(transfer.seq, (i % 256) as u8);
        assert_eq!(transfer.request[0], transfer.seq);
        assert_eq!(transfer.request[1], 0);
        if let Some(before) = last {
            assert_eq!(transfer.seq, before.wrapping_add(1));
        }
        last = Some(transfer.seq);
    }
}

#[test]
fn next_seq_hands_out_then_steps() {
    let mut shared = CmdShared::new();
    assert_eq!(shared.next_seq(), 0);
    assert_eq!(shared.next_seq(), 1);
    for _ in 2..255 {
        shared.next_seq();
    }
    assert_eq!(shared.next_seq(), 255);
    assert_eq!(shared.next_seq(), 0);
}

#[test]
fn zero_length_packet_where_the_request_fills_its_packets() {
    let data = vec![0x55u8; 60];
    let mut shared = CmdShared::new();

    let mut batch = CommandBatch::new(1023, 1023);
    batch.push(Command::new(1, 3, &data[..], ()));
    let transfer = batch.run(&mut shared, 64);
    assert_eq!(transfer.request.len(), 64);
    assert!(transfer.zero_length_packet);

    let mut batch = CommandBatch::new(1023, 1023);
    batch.push(Command::new(1, 3, &data[..], ()));
    let transfer = batch.run(&mut shared, 32);
    assert!(transfer.zero_length_packet);

    let mut batch = CommandBatch::new(1023, 1023);
    batch.push(Command::new(1, 3, &data[..59], ()));
    let transfer = batch.run(&mut shared, 64);
    assert_eq!(transfer.request.len(), 63);
    assert!(!transfer.zero_length_packet);

    let mut batch = CommandBatch::new(1023, 1023);
    batch.push(Command::new(1, 3, &data[..], ()));
    batch.push(Command::new(1, 0, (), ()));
    let transfer = batch.run(&mut shared, 64);
    assert_eq!(transfer.request.len(), 65);
    assert!(!transfer.zero_length_packet);
}

#[test]
fn commands_follow_each_other_in_the_request() {
    let mut shared = CmdShared::new();
    shared.next_seq();
    let mut batch = CommandBatch::new(1023, 1023);
    batch.push(Command::new(3, 0, 0x3au8, ScalarResponse::<u8>::new()));
    batch.push(Command::new(3, 3, &[0x0d][..], ()));
    batch.push(Command::new(3, 1, (), ()));
    assert_eq!(batch.response_len(), 1);
    let transfer = batch.run(&mut shared, 64);
    assert_eq!(transfer.request, vec![1, 0, 0x03, 0x3a, 0xc3, 0x01, 0x0d, 0x43]);
}

#[test]
fn answers_lie_back_to_back() {
    let mut shared = CmdShared::new();
    let mut batch = CommandBatch::new(1023, 1023);
    let h0 = batch.push(Command::new(1, 1, (), ScalarResponse::<u8>::new()));
    let h1 = batch.push(Command::new(2, 2, 3u8, SliceResponse::new(3)));
    let h2 = batch.push(Command::new(3, 0, (), ()));
    let h3 = batch.push(Command::new(4, 1, (), ScalarResponse::<u8>::new()));
    assert_eq!(h0.start(), 0);
    assert_eq!(h0.len(), 1);
    assert_eq!(h1.start(), 1);
    assert_eq!(h1.len(), 3);
    assert_eq!(h2.start(), 4);
    assert_eq!(h2.len(), 0);
    assert_eq!(h3.start(), 4);
    assert_eq!(h3.len(), 1);
    assert_eq!(batch.response_len(), 5);
    let transfer = batch.run(&mut shared, 64);
    let response = transfer.complete(Ok(vec![0, 0, 10, 20, 30, 40, 50])).unwrap();
    assert_eq!(response.get(h0), Ok(10));
    assert_eq!(response.get(h1), Ok(&[20u8, 30, 40][..]));
    assert_eq!(response.get(h2), Ok(()));
    assert_eq!(response.get(h3), Ok(50));
}

#[test]
fn short_response_fails_the_answers_it_lacks() {
    let mut shared = CmdShared::new();
    let mut batch = CommandBatch::new(1023, 1023);
    let h0 = batch.push(Command::new(1, 1, (), ScalarResponse::<u8>::new()));
    let h1 = batch.push(Command::new(2, 2, 3u8, SliceResponse::new(3)));
    let h2 = batch.push(Command::new(3, 0, (), ()));
    let transfer = batch.run(&mut shared, 64);
    let response = transfer.complete(Ok(vec![0, 0, 10, 20, 30])).unwrap();
    assert_eq!(response.get(h0), Ok(10));
    assert_eq!(response.get(h1), Err(()));
    assert_eq!(response.get(h2), Err(()));
    assert_eq!(response.region(0, 3), Some(&[10u8, 20, 30][..]));
    assert_eq!(response.region(1, 3), None);
    assert!(response.covers_range(3, 0));
    assert!(!response.covers_range(0, 4));
}

#[test]
fn static_answer_outlives_the_response() {
    let mut shared = CmdShared::new();
    let mut batch = CommandBatch::new(1023, 1023);
    let h = batch.push(Command::new(2, 1, (), ScalarResponse::<u8>::new()));
    let transfer = batch.run(&mut shared, 64);
    let response = transfer.complete(Ok(vec![0, 0, 1])).unwrap();
    assert_eq!(response.get_static(h), Ok(1));

    let mut batch = CommandBatch::new(1023, 1023);
    let h = batch.push(Command::new(2, 1, (), ScalarResponse::<u8>::new()));
    let transfer = batch.run(&mut shared, 64);
    let response = transfer.complete(Ok(vec![1, 0])).unwrap();
    assert_eq!(
        response.get_static(h),
        Err(RequestError::Protocol(ProtocolError::TooShort))
    );
}

#[test]
fn response_is_checked_against_the_request() {
    let mut shared = CmdShared::new();
    for _ in 0..7 {
        shared.next_seq();
    }
    let transfer = CommandBatch::new(1023, 1023).run(&mut shared, 64);
    assert_eq!(transfer.seq, 7);

    let too_short = RequestError::Protocol(ProtocolError::TooShort);
    assert_eq!(transfer.complete(Ok(vec![])).err(), Some(too_short));
    assert_eq!(transfer.complete(Ok(vec![7])).err(), Some(too_short));
    assert_eq!(
        transfer.complete(Ok(vec![8, 0])).err(),
        Some(RequestError::Protocol(ProtocolError::SeqMismatch))
    );
    assert_eq!(
        transfer.complete(Ok(vec![8, 5])).err(),
        Some(RequestError::Protocol(ProtocolError::SeqMismatch))
    );
    assert_eq!(
        transfer.complete(Ok(vec![7, 5, 1, 2])).err(),
        Some(RequestError::Protocol(ProtocolError::DeviceStatus(5)))
    );
    assert_eq!(
        transfer.complete(Err(TransferError::Stall)).err(),
        Some(RequestError::Usb(TransferError::Stall))
    );
    assert_eq!(
        transfer.complete(Err(TransferError::Unknown(9))).err(),
        Some(RequestError::Usb(TransferError::Unknown(9)))
    );
    let ok = transfer.complete(Ok(vec![7, 0, 1, 2])).unwrap();
    assert_eq!(ok.len(), 4);
}

#[test]
fn batch_takes_what_fits_and_no_more() {
    let mut batch = CommandBatch::new(8, 4);
    assert_eq!(batch.max_command_len(), 8);
    assert_eq!(batch.max_response_len(), 4);
    let four: &[u8] = &[1, 2, 3, 4];
    let five: &[u8] = &[1, 2, 3, 4, 5];
    // 2 + 1 + 1 + 5 = 9 bytes of request
    assert!(!batch.can_fit(&Command::new(1, 3, five, ())));
    // 2 + 1 + 1 + 4 = 8 bytes of request
    assert!(batch.can_fit(&Command::new(1, 3, four, ())));
    // five bytes of response
    assert!(!batch.can_fit(&Command::new(1, 2, 5u8, SliceResponse::new(5))));
    assert!(batch.can_fit(&Command::new(1, 2, 4u8, SliceResponse::new(4))));

    batch.push(Command::new(1, 2, 3u8, SliceResponse::new(3)));
    // request: 2 + 2 used, 4 left; response: 3 used, 1 left
    assert!(batch.can_fit(&Command::new(1, 1, (), ScalarResponse::<u8>::new())));
    assert!(!batch.can_fit(&Command::new(1, 2, 2u8, SliceResponse::new(2))));
    assert!(batch.can_fit(&Command::new(1, 3, &four[..2], ())));
    assert!(!batch.can_fit(&Command::new(1, 3, &four[..3], ())));

    batch.push(Command::new(1, 3, &four[..2], ()));
    assert!(!batch.can_fit(&Command::new(1, 0, (), ())));
}

#[test]
fn batch_below_header_size_takes_nothing() {
    let batch = CommandBatch::new(1, 10);
    assert!(!batch.can_fit(&Command::new(1, 0, (), ())));
    let batch = CommandBatch::new(2, 10);
    assert!(!batch.can_fit(&Command::new(1, 0, (), ())));
    let batch = CommandBatch::new(3, 10);
    assert!(batch.can_fit(&Command::new(1, 0, (), ())));
}

#[test]
fn encoded_commands_push_like_typed_ones() {
    let mut shared = CmdShared::new();
    let data: &[u8] = &[9, 9];
    let mut typed = CommandBatch::new(64, 64);
    typed.push(Command::new(5, 3, data, SliceResponse::new(2)));
    typed.push(Command::new(5, 1, (), ()));
    let mut encoded = CommandBatch::new(64, 64);
    let first = Command::new(5, 3, data, SliceResponse::new(2)).encode();
    let second = Command::new(5, 1, (), ()).encode();
    assert!(encoded.can_fit_encoded(&first));
    assert_eq!(encoded.push_encoded(&first), 0);
    assert_eq!(encoded.push_encoded(&second), 2);
    assert_eq!(typed.response_len(), encoded.response_len());
    let a = typed.run(&mut shared, 64);
    let mut shared = CmdShared::new();
    let b = encoded.run(&mut shared, 64);
    assert_eq!(a.request, b.request);
}
