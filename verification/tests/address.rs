use nickmass_com::address::address_text;
use nickmass_com::sessions::{Session, StoreLookup};

fn mapped(a: u8, b: u8, c: u8, d: u8) -> [u16; 8] {
    [0, 0, 0, 0, 0, 0xffff, u16::from_be_bytes([a, b]), u16::from_be_bytes([c, d])]
}

#[test]
fn address_is_written_in_eight_groups() {
    assert_eq!(address_text(&[0; 8]), "0:0:0:0:0:0:0:0");
    assert_eq!(address_text(&[0, 0, 0, 0, 0, 0, 0, 1]), "0:0:0:0:0:0:0:1");
    assert_eq!(
        address_text(&[0x2001, 0xdb8, 0, 0, 0, 0, 0, 5]),
        "2001:db8:0:0:0:0:0:5"
    );
    assert_eq!(
        address_text(&[0xffff; 8]),
        "ffff:ffff:ffff:ffff:ffff:ffff:ffff:ffff"
    );
    assert_eq!(
        address_text(&[0x1, 0x10, 0x100, 0x1000, 0xa, 0xabc, 0xf0f0, 0x9]),
        "1:10:100:1000:a:abc:f0f0:9"
    );
}

#[test]
fn ipv4_address_is_written_without_a_dot() {
    let text = address_text(&mapped(203, 0, 113, 5));
    assert_eq!(text, "0:0:0:0:0:ffff:cb00:7105");
    assert!(!text.contains('.'));
}

#[test]
fn groups_are_written_as_lower_case_hexadecimal() {
    assert_eq!(
        address_text(&[0x2001, 0xdb8, 0, 0, 0, 0x8a2e, 0x370, 0x7334]),
        "2001:db8:0:0:0:8a2e:370:7334"
    );
    for g in [0u16, 1, 9, 10, 15, 16, 255, 256, 4095, 4096, 65535] {
        assert_eq!(
            address_text(&[g; 8]),
            vec![format!("{:x}", g); 8].join(":")
        );
    }
}

#[test]
fn ipv4_client_keeps_its_session() {
    let s = Session::new(&[7u8; 32]);
    let here = address_text(&mapped(203, 0, 113, 5));
    let there = address_text(&mapped(203, 0, 113, 9));
    let store = s.get_store(&here, None).unwrap().into_store(None);
    match s.get_store(&here, Some(&store.sid())).unwrap() {
        StoreLookup::Known { key, sid } => {
            assert_eq!(key, store.key());
            assert_eq!(sid, store.sid());
        }
        StoreLookup::Minted { .. } => panic!("the token was issued to this address"),
    }
    match s.get_store(&there, Some(&store.sid())).unwrap() {
        StoreLookup::Minted { key, .. } => assert_ne!(key, store.key()),
        StoreLookup::Known { .. } => panic!("the token belongs to another address"),
    }
}
