use snowbinary::{SnowBinError, SnowBinInfo, SnowBinReader, SnowBinWriter};

fn container(info: SnowBinInfo, entries: &[(&str, Vec<u8>)]) -> Vec<u8> {
    let mut writer = SnowBinWriter::new(info);
    for (tag, payload) in entries {
        writer.write(tag, payload).unwrap();
    }
    writer.close().unwrap();
    writer.into_bytes()
}

#[test]
fn the_scenario_of_two_entries() {
    let info = SnowBinInfo::new(8, 64).unwrap();
    let mut writer = SnowBinWriter::new(info);
    writer.write("TEST", b"This is a String!").unwrap();
    writer.write("TEST321", b"This is a String!").unwrap();
    writer.close().unwrap();
    let mut reader = SnowBinReader::new(writer.into_bytes()).unwrap();
    assert_eq!(reader.read("TEST").unwrap(), b"This is a String!".to_vec());
    assert_eq!(reader.read("NULL_NO").unwrap_err(), SnowBinError::ReachedEOF);
    assert_eq!(reader.read("TEST321").unwrap(), b"This is a String!".to_vec());
}

#[test]
fn every_entry_comes_back_under_every_width() {
    let payloads: Vec<Vec<u8>> = vec![
        Vec::new(),
        vec![0],
        b"payload".to_vec(),
        (0u8..=254).collect(),
        vec![0x20; 40],
        b"SNOW_END".to_vec(),
    ];
    let tags = ["", "a", "tag", "12345678", "é", "t g"];
    for tag_width in [8u32, 9, 32] {
        for length_width in [8u8, 16, 32, 64] {
            let info = SnowBinInfo::new(tag_width, length_width).unwrap();
            let entries: Vec<(&str, Vec<u8>)> =
                tags.iter().copied().zip(payloads.iter().cloned()).collect();
            let data = container(info, &entries);
            let mut reader = SnowBinReader::new(data).unwrap();
            for (tag, payload) in &entries {
                assert_eq!(&reader.read(tag).unwrap(), payload);
            }
        }
    }
}

#[test]
fn a_large_payload_comes_back() {
    let payload: Vec<u8> = (0..70_000u32).map(|i| (i % 251) as u8).collect();
    for length_width in [32u8, 64] {
        let info = SnowBinInfo::new(8, length_width).unwrap();
        let data = container(info, &[("small", vec![1]), ("large", payload.clone())]);
        let mut reader = SnowBinReader::new(data).unwrap();
        assert_eq!(reader.read("large").unwrap(), payload);
        assert_eq!(reader.read("small").unwrap(), vec![1]);
    }
}

#[test]
fn the_first_of_two_entries_with_one_tag_wins() {
    let data = container(
        SnowBinInfo::default(),
        &[
            ("other", b"0".to_vec()),
            ("twice", b"first".to_vec()),
            ("twice", b"second".to_vec()),
        ],
    );
    let mut reader = SnowBinReader::new(data).unwrap();
    assert_eq!(reader.read("twice").unwrap(), b"first".to_vec());
}

#[test]
fn a_tag_never_written_is_not_found() {
    let data = container(
        SnowBinInfo::new(12, 16).unwrap(),
        &[("one", b"1".to_vec()), ("two", Vec::new())],
    );
    let mut reader = SnowBinReader::new(data).unwrap();
    for tag in ["three", "", "One", "on", "one1", "SNOW_BIN"] {
        assert_eq!(reader.read(tag).unwrap_err(), SnowBinError::ReachedEOF);
    }
    // An entry with an empty payload is found, and is not a miss.
    assert_eq!(reader.read("two").unwrap(), Vec::<u8>::new());
}

#[test]
fn nothing_is_found_in_an_empty_container() {
    let data = container(SnowBinInfo::default(), &[]);
    let mut reader = SnowBinReader::new(data).unwrap();
    assert_eq!(reader.read("TEST").unwrap_err(), SnowBinError::ReachedEOF);
    assert_eq!(reader.read("").unwrap_err(), SnowBinError::ReachedEOF);
}

#[test]
fn an_entry_under_the_end_marker_hides_itself_and_what_follows() {
    let data = container(
        SnowBinInfo::default(),
        &[
            ("before", b"1".to_vec()),
            ("SNOW_END", b"2".to_vec()),
            ("after", b"3".to_vec()),
        ],
    );
    let mut reader = SnowBinReader::new(data).unwrap();
    assert_eq!(reader.read("before").unwrap(), b"1".to_vec());
    assert_eq!(reader.read("SNOW_END").unwrap_err(), SnowBinError::ReachedEOF);
    assert_eq!(reader.read("after").unwrap_err(), SnowBinError::ReachedEOF);
}

#[test]
fn a_payload_may_hold_the_end_marker() {
    let data = container(
        SnowBinInfo::new(8, 8).unwrap(),
        &[("a", b"SNOW_ENDSNOW_END".to_vec()), ("b", b"found".to_vec())],
    );
    let mut reader = SnowBinReader::new(data).unwrap();
    assert_eq!(reader.read("b").unwrap(), b"found".to_vec());
}

#[test]
fn any_flipped_byte_behind_the_preamble_is_detected() {
    let data = container(
        SnowBinInfo::default(),
        &[("TEST", b"This is a String!".to_vec()), ("k", Vec::new())],
    );
    assert!(SnowBinReader::new(data.clone()).is_ok());
    for at in 21..data.len() - 32 {
        for mask in [0x01u8, 0x80, 0xff] {
            let mut changed = data.clone();
            changed[at] ^= mask;
            match SnowBinReader::new(changed) {
                Ok(_) => panic!("a change at byte {} went unnoticed", at),
                Err(e) => assert_eq!(e, SnowBinError::HashDoesNotMatch),
            }
        }
    }
}

#[test]
fn any_flipped_byte_of_the_preamble_is_detected() {
    let data = container(
        SnowBinInfo::default(),
        &[("TEST", b"This is a String!".to_vec())],
    );
    for at in 0..21 {
        for mask in [0x01u8, 0x80, 0xff] {
            let mut changed = data.clone();
            changed[at] ^= mask;
            let expected = if at < 8 {
                SnowBinError::MalformedHeader
            } else if at < 16 {
                SnowBinError::WrongSpecVersion
            } else if at < 20 {
                // The tag width is 8: a lower byte that falls under 8 makes
                // it too small, any other change leaves a width that the
                // digest no longer agrees with.
                if at == 16 && (8u8 ^ mask) < 8 {
                    SnowBinError::HeaderSizeTooSmall
                } else {
                    SnowBinError::HashDoesNotMatch
                }
            } else {
                SnowBinError::DataSizeNotAllowed
            };
            match SnowBinReader::new(changed) {
                Ok(_) => panic!("a change at byte {} went unnoticed", at),
                Err(e) => assert_eq!(e, expected),
            }
        }
    }
}

#[test]
fn any_flipped_byte_of_the_hash_is_detected() {
    let data = container(SnowBinInfo::default(), &[("TEST", b"x".to_vec())]);
    for at in data.len() - 32..data.len() {
        let mut changed = data.clone();
        changed[at] ^= 0x10;
        match SnowBinReader::new(changed) {
            Ok(_) => panic!("a change at byte {} went unnoticed", at),
            Err(e) => assert_eq!(e, SnowBinError::HashDoesNotMatch),
        }
    }
}

#[test]
fn a_container_that_lost_or_gained_a_byte_is_detected() {
    let data = container(SnowBinInfo::default(), &[("TEST", b"x".to_vec())]);
    let mut shorter = data.clone();
    shorter.pop();
    assert!(matches!(
        SnowBinReader::new(shorter),
        Err(SnowBinError::HashDoesNotMatch)
    ));
    let mut longer = data.clone();
    longer.push(0);
    assert!(matches!(
        SnowBinReader::new(longer),
        Err(SnowBinError::HashDoesNotMatch)
    ));
    let mut unsealed = SnowBinWriter::new(SnowBinInfo::default());
    unsealed.write("TEST", &[9u8; 64]).unwrap();
    assert!(matches!(
        SnowBinReader::new(unsealed.into_bytes()),
        Err(SnowBinError::HashDoesNotMatch)
    ));
}

#[test]
fn the_decoder_recovers_the_parameters() {
    for tag_width in [8u32, 300, 70_000] {
        for length_width in [8u8, 16, 32, 64] {
            let info = SnowBinInfo::new(tag_width, length_width).unwrap();
            let writer = SnowBinWriter::new(info);
            assert_eq!(writer.info(), info);
            let reader = SnowBinReader::new(container(info, &[])).unwrap();
            assert_eq!(reader.info(), info);
            assert_eq!(reader.info().header_size(), tag_width);
            assert_eq!(reader.info().data_size(), length_width);
        }
    }
}
