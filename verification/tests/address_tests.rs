use p2p_transfer::obfuscator::{AddressInfo, SocketAddress};

#[test]
fn bytes_to_string() {
    let addr = SocketAddress {
        octets: [192, 168, 0, 111],
        port: 6543,
    };
    println!("Address: {:?}", addr);
    let info = AddressInfo::new(addr);
    let code = info.to_string();
    println!("Code: {}", code);
    let info: AddressInfo = code.parse().unwrap();
    assert_eq!(info.address, addr);
}

#[test]
fn code_of_a_known_address() {
    let info = AddressInfo::new(SocketAddress {
        octets: [192, 168, 0, 111],
        port: 6543,
    });
    assert_eq!(info.to_bytes(), vec![192, 168, 0, 111, 0x8f, 0x19]);
    assert_eq!(info.to_string(), "2ewMhpMgU");
    assert_eq!(info.to_string(), bs58::encode([192u8, 168, 0, 111, 0x8f, 0x19]).into_string());
}

#[test]
fn known_code_parses_to_its_address() {
    let info = AddressInfo::from_str("26F44qzVt").unwrap();
    assert_eq!(
        info.address,
        SocketAddress {
            octets: [127, 0, 0, 1],
            port: 8080
        }
    );
}

#[test]
fn address_round_trip() {
    let ports = [0u16, 1, 255, 256, 6543, 0x8000, u16::MAX];
    let hosts = [
        [0u8, 0, 0, 0],
        [0, 0, 0, 1],
        [127, 0, 0, 1],
        [192, 168, 0, 111],
        [10, 0, 255, 0],
        [255, 255, 255, 255],
    ];
    for octets in hosts {
        for port in ports {
            let address = SocketAddress { octets, port };
            let code = AddressInfo::new(address).to_string();
            let back = AddressInfo::from_str(&code).unwrap();
            assert_eq!(back.address, address);
        }
    }
}

#[test]
fn leading_zero_octets_survive() {
    let address = SocketAddress {
        octets: [0, 0, 0, 0],
        port: 0,
    };
    let code = AddressInfo::new(address).to_string();
    assert_eq!(code, "111111");
    assert_eq!(AddressInfo::from_str(&code).unwrap().address, address);
}

#[test]
fn code_of_another_length_is_invalid_size() {
    for code in ["7bWpTW", "3DUyZY2dc", ""] {
        match AddressInfo::from_str(code) {
            Ok(_) => panic!("{} was accepted", code),
            Err(e) => assert_eq!(e.to_string(), "Invalid size"),
        }
    }
}

#[test]
fn code_outside_the_alphabet_is_a_base58_error() {
    for code in ["hello world", "0OIl", "2ewMhpMg\u{e9}"] {
        match AddressInfo::from_str(code) {
            Ok(_) => panic!("{} was accepted", code),
            Err(e) => {
                let message = e.to_string();
                assert!(message.starts_with("Base58 error: "), "{}", message);
                assert!(message.len() > "Base58 error: ".len());
            }
        }
    }
}

#[test]
fn base58_error_names_the_character() {
    let e = match AddressInfo::from_str("hello world") {
        Ok(_) => panic!("accepted"),
        Err(e) => e,
    };
    assert_eq!(
        e.to_string(),
        "Base58 error: provided string contained invalid character 'l' at byte 2"
    );
}

#[test]
fn corrupted_code_gives_another_address() {
    let address = SocketAddress {
        octets: [192, 168, 0, 111],
        port: 6543,
    };
    let back = AddressInfo::from_str("2ewMhpMgV").unwrap();
    assert_ne!(back.address, address);
}

#[test]
fn from_bytes_takes_six_bytes() {
    let info = match AddressInfo::from_bytes(vec![1, 2, 3, 4, 0x34, 0x12]) {
        Ok(info) => info,
        Err(e) => panic!("{}", e.to_string()),
    };
    assert_eq!(
        info.address,
        SocketAddress {
            octets: [1, 2, 3, 4],
            port: 0x1234
        }
    );
    match AddressInfo::from_bytes(vec![1, 2, 3, 4, 5]) {
        Ok(_) => panic!("accepted"),
        Err(e) => assert_eq!(e.to_string(), "Invalid data"),
    }
}

#[test]
fn parse_gives_what_from_str_gives() {
    let parsed: AddressInfo = "26F44qzVt".parse().unwrap();
    assert_eq!(
        parsed.address,
        SocketAddress {
            octets: [127, 0, 0, 1],
            port: 8080
        }
    );
    let short: Result<AddressInfo, _> = "7bWpTW".parse();
    assert_eq!(short.unwrap_err().to_string(), "Invalid size");
    let bad: Result<AddressInfo, _> = "0OIl".parse();
    assert!(bad.unwrap_err().to_string().starts_with("Base58 error: "));
}
