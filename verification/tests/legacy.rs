use snowbinary::legacy::{
    init_file, snow_bin_info_new, snow_bin_info_set_data_size, snow_bin_info_set_header_size,
    snow_bin_info_set_v_hash, snow_bin_writer_new, write_bool, write_bytes, write_header,
    write_u16, write_u32, write_u64, write_u8, DATA_START, VERSION_SPEC,
};
use snowbinary::SnowBinError;

#[test]
fn first_version_defaults() {
    let info = snow_bin_info_new();
    assert_eq!(info.header_size, 8);
    assert_eq!(info.data_size, 64);
    assert!(!info.v_hash);
    assert_eq!(VERSION_SPEC, 0);
    assert_eq!(DATA_START, 26);
}

#[test]
fn first_version_setters() {
    let mut info = snow_bin_info_new();
    assert!(snow_bin_info_set_header_size(&mut info, 3));
    assert_eq!(info.header_size, 3);
    assert!(snow_bin_info_set_header_size(&mut info, u64::MAX));
    assert_eq!(info.header_size, u64::MAX);
    assert!(snow_bin_info_set_v_hash(&mut info, true));
    assert!(info.v_hash);
    assert!(snow_bin_info_set_v_hash(&mut info, false));
    assert!(!info.v_hash);
    for size in 0u8..=255 {
        let before = info.data_size;
        let taken = snow_bin_info_set_data_size(&mut info, size);
        assert_eq!(taken, size == 8 || size == 16 || size == 32 || size == 64);
        assert_eq!(info.data_size, if taken { size } else { before });
        assert_eq!(info.header_size, u64::MAX);
    }
}

#[test]
fn first_version_numbers_are_written_high_byte_first() {
    let mut file = vec![0xaa];
    write_u8(&mut file, 0x12);
    write_u16(&mut file, 0x1234);
    write_u32(&mut file, 0x1234_5678);
    write_u64(&mut file, 0x0102_0304_0506_0708);
    write_bool(&mut file, true);
    write_bool(&mut file, false);
    write_bytes(&mut file, &[0xfe, 0xff]);
    assert_eq!(
        file,
        vec![
            0xaa, 0x12, 0x12, 0x34, 0x12, 0x34, 0x56, 0x78, 0x01, 0x02, 0x03, 0x04, 0x05, 0x06,
            0x07, 0x08, 1, 0, 0xfe, 0xff
        ]
    );
    for value in [0u64, 1, 256, u64::MAX, 0xdead_beef_0bad_f00d] {
        let mut file = Vec::new();
        write_u64(&mut file, value);
        assert_eq!(file, value.to_be_bytes().to_vec());
        let mut file = Vec::new();
        write_u32(&mut file, value as u32);
        assert_eq!(file, (value as u32).to_be_bytes().to_vec());
        let mut file = Vec::new();
        write_u16(&mut file, value as u16);
        assert_eq!(file, (value as u16).to_be_bytes().to_vec());
    }
}

#[test]
fn first_version_headers_are_filled_with_zeros() {
    let mut file = vec![7];
    write_header(&mut file, "TEST", 8).unwrap();
    assert_eq!(file, b"\x07TEST\0\0\0\0".to_vec());
    write_header(&mut file, "", 0).unwrap();
    assert_eq!(file.len(), 9);
    assert_eq!(
        write_header(&mut file, "123456789", 8).unwrap_err(),
        SnowBinError::HeaderTooLong
    );
    assert_eq!(file.len(), 9);
}

#[test]
fn first_version_preamble() {
    let mut info = snow_bin_info_new();
    snow_bin_info_set_header_size(&mut info, 0x0102);
    snow_bin_info_set_data_size(&mut info, 16);
    snow_bin_info_set_v_hash(&mut info, true);
    let mut file = Vec::new();
    init_file(&mut file, &info);
    assert_eq!(
        file,
        vec![
            b'S', b'N', b'O', b'W', b'_', b'B', b'I', b'N', 0, 0, 0, 0, 0, 0, 0, 0, 0, 0, 0, 0,
            0, 0, 1, 2, 16, 1
        ]
    );
    assert_eq!(file.len() as u64, DATA_START);
    let writer = snow_bin_writer_new(&info);
    assert_eq!(writer.as_bytes(), file.as_slice());
}

#[test]
fn first_version_preamble_of_parameters_set_by_hand() {
    // A width that the setter would refuse is written as it is.
    let info = snowbinary::legacy::SnowBinInfo { header_size: 3, data_size: 7, v_hash: false };
    let mut file = Vec::new();
    init_file(&mut file, &info);
    assert_eq!(&file[..8], b"SNOW_BIN");
    assert_eq!(&file[8..16], &[0u8; 8]);
    assert_eq!(&file[16..24], &[0, 0, 0, 0, 0, 0, 0, 3]);
    assert_eq!(&file[24..], &[7, 0]);
}
