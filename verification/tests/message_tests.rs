use p2p_transfer::bitfield::Bitfield;
use p2p_transfer::message::{
    ChunkMessage, FileTransferAcceptMessage, FileTransferRequestMessage, GoodbyeMessage, Message,
    Messages, PartBeginMessage, PartEndMessage, PingMessage, ReliableAckMessage, ReliableMessage,
    TransferIncompleteMessage, TransferSuccessfulMessage,
};

fn every_plain_message() -> Vec<Messages> {
    vec![
        Messages::Ping(PingMessage {}),
        Messages::FileTransferRequest(FileTransferRequestMessage {
            filename: "r\u{e9}sum\u{e9}.pdf".to_string(),
            filesize: 0x0102_0304_0506_0708,
        }),
        Messages::FileTransferAccept(FileTransferAcceptMessage {}),
        Messages::PartBegin(PartBeginMessage {
            part_size: 1537,
            chunk_size: 1024,
            part_number: 3,
            chunk_count: 2,
        }),
        Messages::Chunk(ChunkMessage {
            index: 5,
            part_number: 3,
            data: vec![9, 8, 7],
        }),
        Messages::Chunk(ChunkMessage {
            index: 0,
            part_number: 0,
            data: vec![],
        }),
        Messages::PartEnd(PartEndMessage {}),
        Messages::TransferIncomplete(TransferIncompleteMessage {
            bitfield: Bitfield::from_bytes(vec![0b0111_0111, 0b0000_0011]),
        }),
        Messages::TransferSuccessful(TransferSuccessfulMessage {}),
        Messages::Goodbye(GoodbyeMessage {
            motd: "Thank you for using our service!".to_string(),
        }),
    ]
}

fn every_message() -> Vec<Messages> {
    let mut all = every_plain_message();
    all.push(Messages::ReliableAck(ReliableAckMessage {
        packet_index: 0xdead_beef,
    }));
    for (i, inner) in every_plain_message().into_iter().enumerate() {
        all.push(Messages::Reliable(ReliableMessage {
            packet_index: 100 + i as u32,
            message: Box::new(inner),
        }));
    }
    all
}

fn tail_len(message: &Messages) -> usize {
    match message {
        Messages::Chunk(m) => m.data.len(),
        Messages::TransferIncomplete(m) => m.bitfield.get_bytes().len(),
        Messages::Reliable(m) => tail_len(&m.message),
        _ => 0,
    }
}

fn without_tail(message: &Messages, k: usize) -> Messages {
    match message {
        Messages::Chunk(m) => Messages::Chunk(ChunkMessage {
            index: m.index,
            part_number: m.part_number,
            data: m.data[..m.data.len() - k].to_vec(),
        }),
        Messages::TransferIncomplete(m) => {
            let bytes = m.bitfield.get_bytes();
            Messages::TransferIncomplete(TransferIncompleteMessage {
                bitfield: Bitfield::from_bytes(bytes[..bytes.len() - k].to_vec()),
            })
        }
        Messages::Reliable(m) => Messages::Reliable(ReliableMessage {
            packet_index: m.packet_index,
            message: Box::new(without_tail(&m.message, k)),
        }),
        other => other.clone(),
    }
}

#[test]
fn identifiers_are_as_tabled() {
    assert_eq!(ReliableMessage::ID, 0);
    assert_eq!(ReliableAckMessage::ID, 1);
    assert_eq!(PingMessage::ID, 2);
    assert_eq!(FileTransferRequestMessage::ID, 3);
    assert_eq!(FileTransferAcceptMessage::ID, 4);
    assert_eq!(PartBeginMessage::ID, 5);
    assert_eq!(ChunkMessage::ID, 6);
    assert_eq!(PartEndMessage::ID, 7);
    assert_eq!(TransferIncompleteMessage::ID, 8);
    assert_eq!(TransferSuccessfulMessage::ID, 9);
    assert_eq!(GoodbyeMessage::ID, 11);
}

#[test]
fn ping_is_its_identifier_alone() {
    assert_eq!(Messages::Ping(PingMessage {}).get_bytes(), vec![2, 0, 0, 0]);
    assert_eq!(PingMessage {}.get_data(), Vec::<u8>::new());
}

#[test]
fn empty_messages_encode_to_four_bytes() {
    assert_eq!(
        Messages::FileTransferAccept(FileTransferAcceptMessage {}).get_bytes(),
        vec![4, 0, 0, 0]
    );
    assert_eq!(Messages::PartEnd(PartEndMessage {}).get_bytes(), vec![7, 0, 0, 0]);
    assert_eq!(
        Messages::TransferSuccessful(TransferSuccessfulMessage {}).get_bytes(),
        vec![9, 0, 0, 0]
    );
}

#[test]
fn reliable_ack_bytes() {
    let ack = ReliableAckMessage {
        packet_index: 0x0403_0201,
    };
    assert_eq!(ack.get_data(), vec![1, 2, 3, 4]);
    assert_eq!(ack.get_bytes(), vec![1, 0, 0, 0, 1, 2, 3, 4]);
}

#[test]
fn file_transfer_request_bytes() {
    let request = FileTransferRequestMessage {
        filename: "a.txt".to_string(),
        filesize: 0x0102_0304_0506_0708,
    };
    assert_eq!(
        request.get_bytes(),
        vec![
            3, 0, 0, 0, // identifier
            5, 0, 0, 0, // length of the name
            b'a', b'.', b't', b'x', b't', // the name
            8, 7, 6, 5, 4, 3, 2, 1, // the size
        ]
    );
}

#[test]
fn file_name_length_counts_bytes_not_characters() {
    let request = FileTransferRequestMessage {
        filename: "\u{e9}".to_string(),
        filesize: 1,
    };
    assert_eq!(
        request.get_data(),
        vec![2, 0, 0, 0, 0xc3, 0xa9, 1, 0, 0, 0, 0, 0, 0, 0]
    );
}

#[test]
fn part_begin_bytes() {
    let begin = PartBeginMessage {
        part_size: 1537,
        chunk_size: 1024,
        part_number: 0x0a0b_0c0d,
        chunk_count: 2,
    };
    assert_eq!(
        begin.get_bytes(),
        vec![5, 0, 0, 0, 0x01, 0x06, 0, 0, 0, 4, 0, 0, 0x0d, 0x0c, 0x0b, 0x0a, 2, 0, 0, 0]
    );
}

#[test]
fn chunk_bytes() {
    let chunk = ChunkMessage {
        index: 258,
        part_number: 1,
        data: vec![0xaa, 0xbb],
    };
    assert_eq!(
        chunk.get_bytes(),
        vec![6, 0, 0, 0, 2, 1, 0, 0, 1, 0, 0, 0, 0xaa, 0xbb]
    );
}

#[test]
fn transfer_incomplete_carries_the_raw_bitfield() {
    let mut bitfield = Bitfield::new();
    bitfield.set(0, true);
    bitfield.set(9, true);
    let message = TransferIncompleteMessage { bitfield };
    assert_eq!(message.get_bytes(), vec![8, 0, 0, 0, 0b0000_0001, 0b0000_0010]);
}

#[test]
fn goodbye_bytes() {
    let goodbye = GoodbyeMessage {
        motd: "bye".to_string(),
    };
    assert_eq!(goodbye.get_bytes(), vec![11, 0, 0, 0, 3, 0, 0, 0, b'b', b'y', b'e']);
}

#[test]
fn reliable_wraps_the_whole_inner_datagram() {
    let reliable = Messages::Reliable(ReliableMessage {
        packet_index: 7,
        message: Box::new(Messages::Ping(PingMessage {})),
    });
    assert_eq!(reliable.get_bytes(), vec![0, 0, 0, 0, 7, 0, 0, 0, 2, 0, 0, 0]);
}

#[test]
fn decode_gives_back_every_message() {
    for message in every_message() {
        let bytes = message.get_bytes();
        let decoded = Messages::decode(&bytes).unwrap();
        assert_eq!(decoded, message);
    }
}

#[test]
fn truncation_beyond_the_tail_is_an_error() {
    for message in every_message() {
        let bytes = message.get_bytes();
        let tail = tail_len(&message);
        for k in 1..=bytes.len() {
            let cut = &bytes[..bytes.len() - k];
            match Messages::decode(cut) {
                Ok(decoded) => {
                    assert!(k <= tail, "{:?} cut by {}", message, k);
                    assert_eq!(decoded, without_tail(&message, k));
                }
                Err(e) => {
                    assert!(k > tail, "{:?} cut by {}", message, k);
                    assert_eq!(e.to_string(), "Invalid data");
                }
            }
        }
    }
}

#[test]
fn unknown_identifiers_are_rejected() {
    for id in [10u32, 12, 13, 255, 0x0100_0000, u32::MAX] {
        let mut bytes = id.to_le_bytes().to_vec();
        bytes.extend_from_slice(&[0; 32]);
        let e = Messages::decode(&bytes).unwrap_err();
        assert_eq!(e.to_string(), "Invalid packet ID");
    }
}

#[test]
fn short_datagrams_are_invalid_data() {
    for len in 0..4 {
        let bytes = vec![2u8; len];
        let e = Messages::decode(&bytes).unwrap_err();
        assert_eq!(e.to_string(), "Invalid data");
    }
}

#[test]
fn nested_reliable_is_rejected() {
    let inner = Messages::Reliable(ReliableMessage {
        packet_index: 1,
        message: Box::new(Messages::Ping(PingMessage {})),
    });
    let outer = Messages::Reliable(ReliableMessage {
        packet_index: 2,
        message: Box::new(inner),
    });
    let e = Messages::decode(&outer.get_bytes()).unwrap_err();
    assert_eq!(e.to_string(), "Invalid data");
}

#[test]
fn reliable_around_an_ack_is_rejected() {
    let outer = Messages::Reliable(ReliableMessage {
        packet_index: 2,
        message: Box::new(Messages::ReliableAck(ReliableAckMessage { packet_index: 1 })),
    });
    let e = Messages::decode(&outer.get_bytes()).unwrap_err();
    assert_eq!(e.to_string(), "Invalid data");
}

#[test]
fn reliable_around_an_unknown_identifier_is_invalid_data() {
    let bytes = vec![0, 0, 0, 0, 7, 0, 0, 0, 10, 0, 0, 0];
    let e = Messages::decode(&bytes).unwrap_err();
    assert_eq!(e.to_string(), "Invalid data");
}

#[test]
fn file_name_must_be_utf8() {
    let bytes = vec![3, 0, 0, 0, 2, 0, 0, 0, 0xc3, 0x28, 1, 0, 0, 0, 0, 0, 0, 0];
    let e = Messages::decode(&bytes).unwrap_err();
    assert_eq!(e.to_string(), "Invalid data");
    assert!(FileTransferRequestMessage::from_bytes(bytes[4..].to_vec()).is_none());
}

#[test]
fn motd_must_be_utf8() {
    let bytes = vec![11, 0, 0, 0, 1, 0, 0, 0, 0xff];
    let e = Messages::decode(&bytes).unwrap_err();
    assert_eq!(e.to_string(), "Invalid data");
}

#[test]
fn file_name_longer_than_the_payload_is_invalid_data() {
    let bytes = vec![3, 0, 0, 0, 0xff, 0xff, 0xff, 0xff, b'a', 1, 0, 0, 0, 0, 0, 0, 0];
    let e = Messages::decode(&bytes).unwrap_err();
    assert_eq!(e.to_string(), "Invalid data");
}

#[test]
fn bytes_after_a_fixed_payload_are_passed_over() {
    let decoded = Messages::decode(&[2, 0, 0, 0, 1, 2, 3]).unwrap();
    assert_eq!(decoded, Messages::Ping(PingMessage {}));
    let decoded = Messages::decode(&[1, 0, 0, 0, 9, 0, 0, 0, 0xee]).unwrap();
    assert_eq!(
        decoded,
        Messages::ReliableAck(ReliableAckMessage { packet_index: 9 })
    );
    let decoded = Messages::decode(&[11, 0, 0, 0, 2, 0, 0, 0, b'h', b'i', b'!']).unwrap();
    assert_eq!(
        decoded,
        Messages::Goodbye(GoodbyeMessage {
            motd: "hi".to_string()
        })
    );
}

#[test]
fn chunk_takes_all_remaining_bytes() {
    let decoded = Messages::decode(&[6, 0, 0, 0, 1, 0, 0, 0, 2, 0, 0, 0]).unwrap();
    assert_eq!(
        decoded,
        Messages::Chunk(ChunkMessage {
            index: 1,
            part_number: 2,
            data: vec![]
        })
    );
    let decoded = Messages::decode(&[6, 0, 0, 0, 1, 0, 0, 0, 2, 0, 0, 0, 5, 6]).unwrap();
    assert_eq!(
        decoded,
        Messages::Chunk(ChunkMessage {
            index: 1,
            part_number: 2,
            data: vec![5, 6]
        })
    );
}

#[test]
fn from_bytes_parses_the_payload_of_each_kind() {
    assert_eq!(
        *ReliableAckMessage::from_bytes(vec![4, 3, 2, 1]).unwrap(),
        ReliableAckMessage {
            packet_index: 0x0102_0304
        }
    );
    assert!(ReliableAckMessage::from_bytes(vec![4, 3, 2]).is_none());
    assert_eq!(*PingMessage::from_bytes(vec![]).unwrap(), PingMessage {});
    assert!(PartBeginMessage::from_bytes(vec![0; 15]).is_none());
    assert_eq!(
        *PartBeginMessage::from_bytes(vec![1, 0, 0, 0, 2, 0, 0, 0, 3, 0, 0, 0, 4, 0, 0, 0])
            .unwrap(),
        PartBeginMessage {
            part_size: 1,
            chunk_size: 2,
            part_number: 3,
            chunk_count: 4
        }
    );
    assert!(ChunkMessage::from_bytes(vec![0; 7]).is_none());
    assert!(GoodbyeMessage::from_bytes(vec![1, 0, 0]).is_none());
    assert!(GoodbyeMessage::from_bytes(vec![1, 0, 0, 0]).is_none());
    assert_eq!(
        TransferIncompleteMessage::from_bytes(vec![1, 2, 3])
            .unwrap()
            .bitfield
            .get_bytes(),
        &vec![1, 2, 3]
    );
    let reliable = ReliableMessage::from_bytes(vec![7, 0, 0, 0, 2, 0, 0, 0]).unwrap();
    assert_eq!(reliable.packet_index, 7);
    assert_eq!(*reliable.message, Messages::Ping(PingMessage {}));
    assert!(ReliableMessage::from_bytes(vec![7, 0, 0, 0, 2, 0, 0]).is_none());
}

#[test]
fn clone_keeps_the_message() {
    for message in every_message() {
        assert_eq!(message.clone(), message);
    }
}
