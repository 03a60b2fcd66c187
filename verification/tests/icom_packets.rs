use iongateway::icom::{crc8, IONICOMPacketType};

#[test]
fn crc8_matches_the_polynomial() {
    assert_eq!(crc8(&[]), 0x00);
    assert_eq!(crc8(&[0x01]), 0x07);
    assert_eq!(crc8(&[0x02]), 0x0E);
    // The standard check value of CRC-8 with polynomial 0x07.
    assert_eq!(crc8(b"123456789"), 0xF4);
}

#[test]
fn dummy_packet_is_recognized() {
    let p = IONICOMPacketType::new_dummy();
    assert!(p.is_dummy());
    let q = IONICOMPacketType::new_from(vec![1, 2, 3]);
    assert!(!q.is_dummy());
}

#[test]
fn full_payload_round_trips() {
    let data: Vec<u8> = (0..=255u8).map(|b| b.wrapping_add(1)).collect();
    let p = IONICOMPacketType::new_from(data.clone());
    assert!(p.verify_crc());
    let framed = p.to_byte_array();
    assert_eq!(framed.len(), 259);
    let q = IONICOMPacketType::from_byte_array(framed.to_vec()).expect("round trip");
    assert_eq!(q.payload_to_array().to_vec(), data);
    assert!(q.verify_crc());
}

#[test]
fn partial_payload_seal_covers_the_whole_area() {
    // new_from seals the length bytes plus the whole padded payload area,
    // while verification covers only the declared prefix, so a partial
    // packet straight out of new_from does not reverify.
    let p = IONICOMPacketType::new_from(vec![1, 2, 3]);
    assert!(!p.verify_crc());
    let framed = p.to_byte_array();
    assert_eq!(
        IONICOMPacketType::from_byte_array(framed.to_vec()),
        Err("CRC check failed.")
    );
}

#[test]
fn set_func_reseals_and_round_trips() {
    let mut p = IONICOMPacketType::new_from(vec![0; 0]);
    p.set_func(0, vec![9, 8, 7]).expect("slot write");
    assert!(p.verify_crc());
    let framed = p.to_byte_array();
    let q = IONICOMPacketType::from_byte_array(framed.to_vec()).expect("round trip");
    let slot = q.get_func(0).expect("slot read");
    assert_eq!(slot.len(), 128);
    assert_eq!(&slot[0..3], &[9, 8, 7]);
}

#[test]
fn get_func_bounds_and_empty_slots() {
    let mut p = IONICOMPacketType::new_from(vec![0; 0]);
    p.set_func(1, vec![5]).expect("slot write");
    // Slot 1 starts with 5; slot 0 is empty; slot 2 is beyond the area.
    assert_eq!(p.get_func(0), Err("Function code fncode empty"));
    assert!(p.get_func(1).is_ok());
    assert_eq!(p.get_func(2), Err("Function code out of bounds"));
}

#[test]
fn set_func_rejects_oversized_data() {
    let mut p = IONICOMPacketType::new_dummy();
    assert_eq!(
        p.set_func(0, vec![0; 129]),
        Err("Data exceeds function or payload bounds")
    );
    assert_eq!(
        p.set_func(2, vec![0; 10]),
        Err("Data exceeds function or payload bounds")
    );
}

#[test]
fn from_byte_array_rejects_malformed_frames() {
    assert_eq!(
        IONICOMPacketType::from_byte_array(vec![0; 10]),
        Err("Invalid byte array length. Expected ICOM_MSG_MAX_LEN bytes.")
    );
    let dummy = vec![0u8; 259];
    assert_eq!(
        IONICOMPacketType::from_byte_array(dummy),
        Err("Dummy package received")
    );
    let mut corrupted = vec![0u8; 259];
    corrupted[0] = 0x01;
    corrupted[1] = 0x01;  // declared length 257
    assert_eq!(
        IONICOMPacketType::from_byte_array(corrupted),
        Err("Package corrupted")
    );
    let mut bad_crc = vec![0u8; 259];
    bad_crc[0] = 3;
    bad_crc[2] = 1;
    bad_crc[258] = 0xAA;
    assert_eq!(
        IONICOMPacketType::from_byte_array(bad_crc),
        Err("CRC check failed.")
    );
}
