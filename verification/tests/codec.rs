use snowbinary::reader::{
    read_bool, read_bytes, read_header, read_u16, read_u32, read_u64, read_u8, ByteFile,
};
use snowbinary::writer::{
    write_bool, write_bytes, write_header, write_u16, write_u32, write_u64, write_u8,
};
use snowbinary::SnowBinError;

#[test]
fn numbers_are_written_low_byte_first() {
    let mut file = vec![0xaa];
    write_u8(&mut file, 0x12);
    write_u16(&mut file, 0x1234);
    write_u32(&mut file, 0x1234_5678);
    write_u64(&mut file, 0x0102_0304_0506_0708);
    assert_eq!(
        file,
        vec![
            0xaa, 0x12, 0x34, 0x12, 0x78, 0x56, 0x34, 0x12, 0x08, 0x07, 0x06, 0x05, 0x04, 0x03,
            0x02, 0x01
        ]
    );
}

#[test]
fn numbers_are_written_as_std_writes_them() {
    for value in [0u64, 1, 255, 256, 65_535, 65_536, u32::MAX as u64, u64::MAX, 0xdead_beef_0bad_f00d] {
        let mut file = Vec::new();
        write_u64(&mut file, value);
        assert_eq!(file, value.to_le_bytes().to_vec());
        let mut file = Vec::new();
        write_u32(&mut file, value as u32);
        assert_eq!(file, (value as u32).to_le_bytes().to_vec());
        let mut file = Vec::new();
        write_u16(&mut file, value as u16);
        assert_eq!(file, (value as u16).to_le_bytes().to_vec());
        let mut file = Vec::new();
        write_u8(&mut file, value as u8);
        assert_eq!(file, vec![value as u8]);
    }
}

#[test]
fn numbers_read_back_as_written() {
    let mut bytes = Vec::new();
    write_u8(&mut bytes, 200);
    write_u16(&mut bytes, 60_000);
    write_u32(&mut bytes, 4_000_000_000);
    write_u64(&mut bytes, 18_000_000_000_000_000_000);
    let mut file = ByteFile::new(bytes);
    assert_eq!(read_u8(&mut file), Ok(200));
    assert_eq!(file.position(), 1);
    assert_eq!(read_u16(&mut file), Ok(60_000));
    assert_eq!(file.position(), 3);
    assert_eq!(read_u32(&mut file), Ok(4_000_000_000));
    assert_eq!(file.position(), 7);
    assert_eq!(read_u64(&mut file), Ok(18_000_000_000_000_000_000));
    assert_eq!(file.position(), 15);
}

#[test]
fn a_number_cut_short_is_malformed() {
    let mut file = ByteFile::new(vec![1, 2, 3, 4, 5, 6, 7]);
    assert_eq!(read_u64(&mut file), Err(SnowBinError::MalformedUInt));
    assert_eq!(file.position(), 0);
    file.seek_to(4);
    assert_eq!(read_u32(&mut file), Err(SnowBinError::MalformedUInt));
    assert_eq!(file.position(), 4);
    file.seek_to(6);
    assert_eq!(read_u16(&mut file), Err(SnowBinError::MalformedUInt));
    file.seek_to(7);
    assert_eq!(read_u8(&mut file), Err(SnowBinError::MalformedUInt));
    assert_eq!(read_bool(&mut file), Err(SnowBinError::MalformedUInt));
    file.seek_to(100);
    assert_eq!(read_u8(&mut file), Err(SnowBinError::MalformedUInt));
    assert_eq!(file.position(), 100);
}

#[test]
fn truth_values_are_one_byte() {
    let mut bytes = Vec::new();
    write_bool(&mut bytes, true);
    write_bool(&mut bytes, false);
    bytes.push(7);
    assert_eq!(bytes, vec![1, 0, 7]);
    let mut file = ByteFile::new(bytes);
    assert_eq!(read_bool(&mut file), Ok(true));
    assert_eq!(read_bool(&mut file), Ok(false));
    assert_eq!(read_bool(&mut file), Ok(true));
    assert_eq!(file.position(), 3);
}

#[test]
fn bytes_are_appended() {
    let mut file = vec![1, 2];
    write_bytes(&mut file, &[3, 4, 5]);
    write_bytes(&mut file, &[]);
    assert_eq!(file, vec![1, 2, 3, 4, 5]);
}

#[test]
fn a_short_header_is_filled_with_spaces() {
    let mut file = vec![0];
    let field = write_header(&mut file, "TEST", 8).unwrap();
    assert_eq!(field, b"TEST    ".to_vec());
    assert_eq!(file, b"\0TEST    ".to_vec());
}

#[test]
fn a_header_of_full_width_is_written_as_it_is() {
    let mut file = Vec::new();
    let field = write_header(&mut file, "SNOW_BIN", 8).unwrap();
    assert_eq!(field, b"SNOW_BIN".to_vec());
    assert_eq!(file, b"SNOW_BIN".to_vec());
}

#[test]
fn an_empty_header_is_all_spaces() {
    let mut file = Vec::new();
    let field = write_header(&mut file, "", 3).unwrap();
    assert_eq!(field, b"   ".to_vec());
}

#[test]
fn a_long_header_is_refused_and_nothing_written() {
    let mut file = vec![9, 9];
    assert_eq!(
        write_header(&mut file, "123456789", 8).unwrap_err(),
        SnowBinError::HeaderTooLong
    );
    assert_eq!(file, vec![9, 9]);
}

#[test]
fn header_length_counts_bytes_not_letters() {
    // Four letters of two bytes each.
    let mut file = Vec::new();
    let field = write_header(&mut file, "éééé", 8).unwrap();
    assert_eq!(field, "éééé".as_bytes().to_vec());
    assert_eq!(
        write_header(&mut file, "ééééé", 8).unwrap_err(),
        SnowBinError::HeaderTooLong
    );
}

#[test]
fn a_header_is_read_as_text() {
    let mut file = ByteFile::new(b"TEST    rest".to_vec());
    assert_eq!(read_header(&mut file, 8), Ok("TEST    ".to_string()));
    assert_eq!(file.position(), 8);
    assert_eq!(read_header(&mut file, 4), Ok("rest".to_string()));
    assert_eq!(file.position(), 12);
}

#[test]
fn a_header_that_is_not_text_is_malformed() {
    let mut file = ByteFile::new(vec![b'A', 0xff, b'B', b'C']);
    assert_eq!(read_header(&mut file, 4), Err(SnowBinError::MalformedHeader));
    assert_eq!(file.position(), 4);
}

#[test]
fn a_header_cut_in_a_letter_is_malformed() {
    let mut bytes = "é".as_bytes().to_vec();
    bytes.truncate(1);
    let mut file = ByteFile::new(bytes);
    assert_eq!(read_header(&mut file, 1), Err(SnowBinError::MalformedHeader));
}

#[test]
fn a_header_behind_the_end_is_not_read() {
    let mut file = ByteFile::new(b"SHORT".to_vec());
    assert_eq!(read_header(&mut file, 8), Err(SnowBinError::ReachedEOF));
    assert_eq!(file.position(), 0);
}

#[test]
fn bytes_are_read_in_full_or_not_at_all() {
    let mut file = ByteFile::new(vec![1, 2, 3, 4, 5]);
    assert_eq!(read_bytes(&mut file, 2), Ok(vec![1, 2]));
    assert_eq!(read_bytes(&mut file, 0), Ok(vec![]));
    assert_eq!(read_bytes(&mut file, 4), Err(SnowBinError::ReachedEOF));
    assert_eq!(file.position(), 2);
    assert_eq!(read_bytes(&mut file, u64::MAX), Err(SnowBinError::ReachedEOF));
    assert_eq!(read_bytes(&mut file, 3), Ok(vec![3, 4, 5]));
    assert_eq!(file.position(), 5);
    assert_eq!(read_bytes(&mut file, 0), Ok(vec![]));
    assert_eq!(read_bytes(&mut file, 1), Err(SnowBinError::ReachedEOF));
}

#[test]
fn a_file_in_memory_keeps_its_bytes_and_position() {
    let mut file = ByteFile::new(vec![10, 20, 30, 40]);
    assert_eq!(file.len(), 4);
    assert_eq!(file.position(), 0);
    assert_eq!(file.as_bytes(), &[10, 20, 30, 40]);
    assert_eq!(file.take(3), Some(vec![10, 20, 30]));
    assert_eq!(file.position(), 3);
    assert_eq!(file.take(2), None);
    assert_eq!(file.position(), 3);
    file.rewind();
    assert_eq!(file.position(), 0);
    assert!(file.skip(4));
    assert_eq!(file.position(), 4);
    assert!(file.skip(0));
    assert!(!file.skip(1));
    assert_eq!(file.position(), 4);
    assert!(!file.skip(u64::MAX));
    file.seek_to(9);
    assert_eq!(file.position(), 9);
    assert!(!file.skip(0));
    assert_eq!(file.take(0), None);
    file.seek_to(1);
    file.truncate(3);
    assert_eq!(file.as_bytes(), &[10, 20, 30]);
    assert_eq!(file.position(), 1);
    file.truncate(7);
    assert_eq!(file.len(), 3);
}

#[test]
fn a_failed_write_on_a_file_is_a_write_error() {
    let failed: Result<(), std::io::Error> =
        Err(std::io::Error::new(std::io::ErrorKind::Other, "full"));
    assert_eq!(snowbinary::writer::error(failed), Err(SnowBinError::IOWriteError));
    assert_eq!(snowbinary::writer::error(Ok(())), Ok(()));
}

#[test]
fn a_failed_read_on_a_file_is_a_read_error() {
    let failed: Result<usize, std::io::Error> =
        Err(std::io::Error::new(std::io::ErrorKind::Other, "gone"));
    assert_eq!(snowbinary::reader::error(failed), Err(SnowBinError::IOReadError));
    assert_eq!(snowbinary::reader::error(Ok(17)), Ok(17));
}
