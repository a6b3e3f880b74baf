use p2p_transfer::bitfield::Bitfield;
use p2p_transfer::message::{
    ChunkMessage, FileTransferAcceptMessage, FileTransferRequestMessage, GoodbyeMessage, Messages,
    PartBeginMessage, PartEndMessage, PingMessage, TransferIncompleteMessage,
    TransferSuccessfulMessage,
};
use p2p_transfer::receiver::{PartAssembly, PartStep, Receiver, ReceiverAction};

fn chunk(index: u32, part_number: u32, data: Vec<u8>) -> Messages {
    Messages::Chunk(ChunkMessage {
        index,
        part_number,
        data,
    })
}

fn part_end() -> Messages {
    Messages::PartEnd(PartEndMessage {})
}

fn begin(part_size: u32, chunk_size: u32, part_number: u32, chunk_count: u32) -> PartBeginMessage {
    PartBeginMessage {
        part_size,
        chunk_size,
        part_number,
        chunk_count,
    }
}

#[test]
fn assembly_starts_zeroed_and_empty() {
    let assembly = PartAssembly::new(begin(5, 2, 0, 3));
    assert_eq!(assembly.data(), &vec![0u8; 5]);
    assert_eq!(assembly.received().get_bytes(), &Vec::<u8>::new());
    assert!(!assembly.is_complete());
}

#[test]
fn part_without_chunks_is_complete() {
    let mut assembly = PartAssembly::new(begin(0, 4, 0, 0));
    assert!(assembly.is_complete());
    assert!(matches!(
        assembly.on_message(part_end()),
        PartStep::Successful(_)
    ));
}

#[test]
fn short_tail_chunk() {
    let mut assembly = PartAssembly::new(begin(1537, 1024, 0, 2));
    assert!(matches!(
        assembly.on_message(chunk(1, 0, vec![7u8; 513])),
        PartStep::Continue
    ));
    assert_eq!(&assembly.data()[..1024], &[0u8; 1024][..]);
    assert_eq!(&assembly.data()[1024..], &[7u8; 513][..]);
    assert!(assembly.received().get(1));
    assert!(!assembly.received().get(0));
}

#[test]
fn chunk_of_another_part_is_ignored() {
    let mut assembly = PartAssembly::new(begin(4, 2, 5, 2));
    assert!(matches!(
        assembly.on_message(chunk(0, 4, vec![1, 2])),
        PartStep::Continue
    ));
    assert_eq!(assembly.data(), &vec![0u8; 4]);
    assert!(!assembly.received().get(0));
}

#[test]
fn chunk_outside_the_part_is_rejected() {
    let mut assembly = PartAssembly::new(begin(4, 2, 0, 2));
    // The index is not one of the part's.
    assembly.on_message(chunk(2, 0, vec![]));
    // The bytes do not fit the buffer.
    assembly.on_message(chunk(1, 0, vec![1, 2, 3]));
    assembly.on_message(chunk(u32::MAX, 0, vec![1]));
    assert_eq!(assembly.data(), &vec![0u8; 4]);
    assert_eq!(assembly.received().get_bytes(), &Vec::<u8>::new());
}

#[test]
fn huge_offsets_do_not_wrap() {
    let mut assembly = PartAssembly::new(begin(8, u32::MAX, 0, u32::MAX));
    assembly.on_message(chunk(u32::MAX - 1, 0, vec![1]));
    assembly.on_message(chunk(0x8000_0001, 0, vec![1]));
    assert_eq!(assembly.data(), &vec![0u8; 8]);
    assembly.on_message(chunk(0, 0, vec![1, 2]));
    assert_eq!(assembly.data(), &vec![1, 2, 0, 0, 0, 0, 0, 0]);
}

#[test]
fn part_end_reports_the_exact_bitfield() {
    let mut assembly = PartAssembly::new(begin(6, 2, 0, 3));
    assembly.on_message(chunk(0, 0, vec![1, 2]));
    assembly.on_message(chunk(2, 0, vec![5, 6]));
    match assembly.on_message(part_end()) {
        PartStep::Incomplete(reply) => assert_eq!(
            reply,
            Messages::TransferIncomplete(TransferIncompleteMessage {
                bitfield: Bitfield::from_bytes(vec![0b0000_0101]),
            })
        ),
        _ => panic!("not incomplete"),
    }
    assembly.on_message(chunk(1, 0, vec![3, 4]));
    match assembly.on_message(part_end()) {
        PartStep::Successful(reply) => assert_eq!(
            reply,
            Messages::TransferSuccessful(TransferSuccessfulMessage {})
        ),
        _ => panic!("not successful"),
    }
    assert_eq!(assembly.data(), &vec![1, 2, 3, 4, 5, 6]);
}

#[test]
fn empty_bitfield_is_not_success() {
    let mut assembly = PartAssembly::new(begin(2, 1, 0, 2));
    match assembly.on_message(part_end()) {
        PartStep::Incomplete(reply) => assert_eq!(
            reply,
            Messages::TransferIncomplete(TransferIncompleteMessage {
                bitfield: Bitfield::new(),
            })
        ),
        _ => panic!("not incomplete"),
    }
}

#[test]
fn success_needs_every_bit_below_the_count() {
    for missing in 0..10u32 {
        let mut assembly = PartAssembly::new(begin(10, 1, 0, 10));
        for index in 0..10u32 {
            if index != missing {
                assembly.on_message(chunk(index, 0, vec![index as u8]));
            }
        }
        assert!(!assembly.is_complete());
        assert!(matches!(
            assembly.on_message(part_end()),
            PartStep::Incomplete(_)
        ));
        assembly.on_message(chunk(missing, 0, vec![missing as u8]));
        assert!(assembly.is_complete());
        assert!(matches!(
            assembly.on_message(part_end()),
            PartStep::Successful(_)
        ));
    }
}

#[test]
fn other_messages_leave_the_part_alone() {
    let mut assembly = PartAssembly::new(begin(2, 1, 0, 2));
    for message in [
        Messages::Ping(PingMessage {}),
        Messages::Goodbye(GoodbyeMessage {
            motd: "bye".to_string(),
        }),
        Messages::PartBegin(begin(9, 9, 9, 9)),
    ] {
        assert!(matches!(assembly.on_message(message), PartStep::Continue));
    }
    assert_eq!(assembly.data(), &vec![0u8; 2]);
}

#[test]
fn receiver_walks_through_a_session() {
    let receiver = Receiver::new();

    // Out of phase: nothing happens before the request.
    let (receiver, action) = receiver.on_message(Messages::PartBegin(begin(2, 1, 0, 2)));
    assert!(matches!(receiver, Receiver::AwaitingRequest));
    assert!(matches!(action, ReceiverAction::Nothing));

    let (receiver, action) =
        receiver.on_message(Messages::FileTransferRequest(FileTransferRequestMessage {
            filename: "a.bin".to_string(),
            filesize: 3,
        }));
    assert!(matches!(receiver, Receiver::Downloading));
    match action {
        ReceiverAction::Accept {
            filename,
            filesize,
            reply,
        } => {
            assert_eq!(filename, "a.bin");
            assert_eq!(filesize, 3);
            assert_eq!(
                reply,
                Messages::FileTransferAccept(FileTransferAcceptMessage {})
            );
        }
        _ => panic!("not accepted"),
    }

    // A stray chunk between parts is ignored.
    let (receiver, action) = receiver.on_message(chunk(0, 0, vec![1]));
    assert!(matches!(receiver, Receiver::Downloading));
    assert!(matches!(action, ReceiverAction::Nothing));

    let (receiver, action) = receiver.on_message(Messages::PartBegin(begin(3, 2, 0, 2)));
    assert!(matches!(receiver, Receiver::Assembling(_)));
    assert!(matches!(action, ReceiverAction::Nothing));

    let (receiver, _) = receiver.on_message(chunk(1, 0, vec![3]));
    let (receiver, action) = receiver.on_message(part_end());
    match action {
        ReceiverAction::Repair { reply } => assert_eq!(
            reply,
            Messages::TransferIncomplete(TransferIncompleteMessage {
                bitfield: Bitfield::from_bytes(vec![0b10]),
            })
        ),
        _ => panic!("no repair"),
    }

    // A goodbye in the middle of a part is ignored.
    let (receiver, action) = receiver.on_message(Messages::Goodbye(GoodbyeMessage {
        motd: "early".to_string(),
    }));
    assert!(matches!(receiver, Receiver::Assembling(_)));
    assert!(matches!(action, ReceiverAction::Nothing));

    let (receiver, _) = receiver.on_message(chunk(0, 0, vec![1, 2]));
    let (receiver, action) = receiver.on_message(part_end());
    assert!(matches!(receiver, Receiver::Downloading));
    match action {
        ReceiverAction::Commit { part, reply } => {
            assert_eq!(part, vec![1, 2, 3]);
            assert_eq!(
                reply,
                Messages::TransferSuccessful(TransferSuccessfulMessage {})
            );
        }
        _ => panic!("no commit"),
    }

    let (receiver, action) = receiver.on_message(Messages::Goodbye(GoodbyeMessage {
        motd: "Thank you for using our service!".to_string(),
    }));
    assert!(matches!(receiver, Receiver::Finished));
    match action {
        ReceiverAction::Finish { motd } => assert_eq!(motd, "Thank you for using our service!"),
        _ => panic!("no finish"),
    }

    let (receiver, action) = receiver.on_message(Messages::PartBegin(begin(3, 2, 0, 2)));
    assert!(matches!(receiver, Receiver::Finished));
    assert!(matches!(action, ReceiverAction::Nothing));
}
