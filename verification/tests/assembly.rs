use memory_reader::assemble::{byte_vec_to_value_vec, bytes_to_num};
use memory_reader::error::ReadError;
use memory_reader::read::{bytes_or_access_error, handle_or_not_found};
use memory_reader::width::{data_type_size_table, DataTypeSize};
use memory_reader::BITS_IN_BYTE;

#[test]
fn two_bytes_assemble_low_byte_first() {
    assert_eq!(bytes_to_num(&[0x96, 0x5A], 0, 2), Some(0x5A96));
    assert_eq!(bytes_to_num(&[0x96, 0x5A], 0, 2), Some(23190));
    assert_eq!(bytes_to_num(&[0x96, 0x5A], 0, 2), Some(0x96 + 0x5A * 256));
    assert_eq!(byte_vec_to_value_vec(&[0x96, 0x5A], 2), Ok(vec![0x5A96]));
}

#[test]
fn four_bytes_assemble_low_byte_first() {
    assert_eq!(bytes_to_num(&[0x33, 0xCC, 0x5A, 0x96], 0, 4), Some(0x965ACC33));
    assert_eq!(
        byte_vec_to_value_vec(&[0x33, 0xCC, 0x5A, 0x96], 4),
        Ok(vec![0x965ACC33])
    );
}

#[test]
fn one_byte_is_its_own_value() {
    assert_eq!(bytes_to_num(&[0x96], 0, 1), Some(0x96));
    assert_eq!(
        byte_vec_to_value_vec(&[0, 1, 0x7F, 0x80, 0xFF], 1),
        Ok(vec![0, 1, 0x7F, 0x80, 0xFF])
    );
}

#[test]
fn three_bytes_assemble_low_byte_first() {
    assert_eq!(bytes_to_num(&[0x01, 0x02, 0x03], 0, 3), Some(0x030201));
    assert_eq!(
        byte_vec_to_value_vec(&[0x01, 0x02, 0x03, 0xFF, 0xFF, 0xFF], 3),
        Ok(vec![0x030201, 0xFFFFFF])
    );
}

#[test]
fn largest_bytes_give_the_largest_values() {
    assert_eq!(bytes_to_num(&[0xFF], 0, 1), Some(0xFF));
    assert_eq!(bytes_to_num(&[0xFF, 0xFF], 0, 2), Some(0xFFFF));
    assert_eq!(bytes_to_num(&[0xFF, 0xFF, 0xFF, 0xFF], 0, 4), Some(u32::MAX));
    assert_eq!(bytes_to_num(&[0, 0, 0, 0x80], 0, 4), Some(0x8000_0000));
}

#[test]
fn window_starts_at_the_given_index() {
    let bytes = [0x11, 0x22, 0x33, 0x44, 0x55, 0x66];
    assert_eq!(bytes_to_num(&bytes, 1, 2), Some(0x3322));
    assert_eq!(bytes_to_num(&bytes, 2, 4), Some(0x66554433));
    assert_eq!(bytes_to_num(&bytes, 5, 1), Some(0x66));
    assert_eq!(bytes_to_num(&bytes, 4, 2), Some(0x6655));
}

#[test]
fn window_past_the_end_has_no_value() {
    let bytes = [0x11, 0x22, 0x33];
    assert_eq!(bytes_to_num(&bytes, 2, 2), None);
    assert_eq!(bytes_to_num(&bytes, 3, 1), None);
    assert_eq!(bytes_to_num(&bytes, 0, 4), None);
    assert_eq!(bytes_to_num(&bytes, usize::MAX, 2), None);
    assert_eq!(bytes_to_num(&[], 0, 1), None);
}

#[test]
fn empty_window_has_value_zero() {
    assert_eq!(bytes_to_num(&[0x11, 0x22], 0, 0), Some(0));
    assert_eq!(bytes_to_num(&[0x11, 0x22], 2, 0), Some(0));
    assert_eq!(bytes_to_num(&[], 0, 0), Some(0));
    assert_eq!(bytes_to_num(&[0x11, 0x22], 3, 0), None);
}

#[test]
fn values_come_in_the_order_of_the_bytes() {
    let bytes = [0x33, 0xCC, 0x5A, 0x96, 0x01, 0x00, 0x00, 0x80];
    assert_eq!(
        byte_vec_to_value_vec(&bytes, 2),
        Ok(vec![0xCC33, 0x965A, 0x0001, 0x8000])
    );
    assert_eq!(
        byte_vec_to_value_vec(&bytes, 4),
        Ok(vec![0x965ACC33, 0x80000001])
    );
}

#[test]
fn wide_values_split_into_their_narrow_halves() {
    let bytes = [0x33, 0xCC, 0x5A, 0x96, 0x01, 0x00, 0x00, 0x80];
    let wide = byte_vec_to_value_vec(&bytes, 4).unwrap();
    let narrow = byte_vec_to_value_vec(&bytes, 2).unwrap();
    assert_eq!(narrow.len(), 2 * wide.len());
    for k in 0..wide.len() {
        assert_eq!(wide[k] & 0xFFFF, narrow[2 * k]);
        assert_eq!(wide[k] >> (2 * BITS_IN_BYTE), narrow[2 * k + 1]);
    }
}

#[test]
fn no_bytes_decode_to_no_values() {
    for width in [1usize, 2, 3, 4] {
        assert_eq!(byte_vec_to_value_vec(&[], width), Ok(vec![]));
    }
}

#[test]
fn leftover_bytes_fail_the_whole_decode() {
    assert_eq!(
        byte_vec_to_value_vec(&[1, 2, 3], 2),
        Err(ReadError::IncompleteWord)
    );
    assert_eq!(
        byte_vec_to_value_vec(&[1, 2, 3, 4, 5], 4),
        Err(ReadError::IncompleteWord)
    );
    assert_eq!(
        byte_vec_to_value_vec(&[1, 2, 3, 4, 5, 6, 7], 4),
        Err(ReadError::IncompleteWord)
    );
    assert_eq!(byte_vec_to_value_vec(&[1], 2), Err(ReadError::IncompleteWord));
    assert_eq!(
        byte_vec_to_value_vec(&[1, 2, 3, 4], 3),
        Err(ReadError::IncompleteWord)
    );
}

#[test]
fn byte_has_eight_bits() {
    assert_eq!(BITS_IN_BYTE, 8);
}

#[test]
fn failure_message_is_the_prefix_and_the_cause() {
    assert_eq!(
        ReadError::ProcessNotFound("pid not found".to_string()).failure_message(),
        "cannot read from given memory: pid not found"
    );
    assert_eq!(
        ReadError::MemoryAccess("Bad address (os error 14)".to_string()).failure_message(),
        "cannot read from given memory: Bad address (os error 14)"
    );
    assert_eq!(
        ReadError::IncompleteWord.failure_message(),
        "cannot read from given memory: "
    );
}

#[test]
fn cause_is_what_the_failure_holds() {
    assert_eq!(
        ReadError::ProcessNotFound("pid not found".to_string()).cause(),
        "pid not found"
    );
    assert_eq!(ReadError::MemoryAccess("gone".to_string()).cause(), "gone");
    assert_eq!(ReadError::IncompleteWord.cause(), "");
}

#[test]
fn refused_handle_is_a_process_not_found() {
    let refused = std::io::Error::new(std::io::ErrorKind::NotFound, "no such process");
    let outcome = handle_or_not_found(Err(refused));
    assert!(matches!(
        outcome,
        Err(ReadError::ProcessNotFound(ref cause)) if cause == "no such process"
    ));
}

#[test]
fn failed_copy_is_a_memory_access_failure() {
    let failed = std::io::Error::new(std::io::ErrorKind::UnexpectedEof, "short read");
    assert_eq!(
        bytes_or_access_error(Err(failed)),
        Err(ReadError::MemoryAccess("short read".to_string()))
    );
}

#[test]
fn complete_copy_is_handed_on_unchanged() {
    assert_eq!(
        bytes_or_access_error(Ok(vec![0x33, 0xCC, 0x5A, 0x96])),
        Ok(vec![0x33, 0xCC, 0x5A, 0x96])
    );
    assert_eq!(bytes_or_access_error(Ok(vec![])), Ok(vec![]));
}

#[test]
fn widths_have_one_two_and_four_bytes() {
    assert_eq!(DataTypeSize::B8.byte_size(), 1);
    assert_eq!(DataTypeSize::B16.byte_size(), 2);
    assert_eq!(DataTypeSize::B32.byte_size(), 4);
}

#[test]
fn widths_are_known_by_their_names() {
    assert_eq!(DataTypeSize::B8.name(), "B8");
    assert_eq!(DataTypeSize::B16.name(), "B16");
    assert_eq!(DataTypeSize::B32.name(), "B32");
}

#[test]
fn table_lists_each_width_with_its_bytes() {
    assert_eq!(
        data_type_size_table(),
        vec![("B8", 1), ("B16", 2), ("B32", 4)]
    );
}

#[test]
fn each_named_width_decodes() {
    let bytes = [0x33, 0xCC, 0x5A, 0x96];
    assert_eq!(
        byte_vec_to_value_vec(&bytes, DataTypeSize::B8.byte_size() as usize),
        Ok(vec![0x33, 0xCC, 0x5A, 0x96])
    );
    assert_eq!(
        byte_vec_to_value_vec(&bytes, DataTypeSize::B16.byte_size() as usize),
        Ok(vec![0xCC33, 0x965A])
    );
    assert_eq!(
        byte_vec_to_value_vec(&bytes, DataTypeSize::B32.byte_size() as usize),
        Ok(vec![0x965ACC33])
    );
}
