use sqlite_varint::read_varint;
use sqlite_varint::read_varint_byte_length;
use sqlite_varint::serialize_to_varint;
use sqlite_varint::try_read_varint;
use sqlite_varint::try_read_varint_byte_length;
use sqlite_varint::varint_is_complete;
use sqlite_varint::VarintError;

#[test]
fn read_single_byte_varint() {
    assert_eq!((1, 1), read_varint(&vec![0b00000001]));
    assert_eq!((3, 1), read_varint(&vec![0b00000011]));
    assert_eq!((7, 1), read_varint(&vec![0b00000111]));
    assert_eq!((15, 1), read_varint(&vec![0b00001111]));
}

#[test]
fn read_two_byte_varint() {
    assert_eq!((128, 2), read_varint(&vec![0b10000001, 0b00000000]));
    assert_eq!((129, 2), read_varint(&vec![0b10000001, 0b00000001]));
    assert_eq!((255, 2), read_varint(&vec![0b10000001, 0b01111111]));
}

#[test]
fn read_nine_byte_varint() {
    assert_eq!((-1, 9), read_varint(&vec![0xff; 9]));
}

#[test]
fn read_varint_in_longer_bytes() {
    assert_eq!((1, 1), read_varint(&vec![0x01; 10]));
    assert_eq!((-1, 9), read_varint(&vec![0xff; 10]));
}

#[test]
fn serialize_simple_varints() {
    assert_eq!(vec![0b00000001], serialize_to_varint(1));
    assert_eq!(vec![0b00000011], serialize_to_varint(3));
}

#[test]
fn serialize_medium_length_varints() {
    assert_eq!(
        vec![0b10000010, 0b00000001],
        serialize_to_varint(0b100000001)
    )
}

#[test]
fn serialize_negative_varints() {
    assert_eq!(vec![0xff; 9], serialize_to_varint(-1));
}

#[test]
fn read_varint_lengths() {
    let bytes_vec: Vec<Vec<u8>> = vec![
        vec![0x0f],
        vec![0xff, 0x0f],
        vec![0xff, 0xff, 0x0f],
        vec![0xff, 0xff, 0xff, 0x0f],
        vec![0xff, 0xff, 0xff, 0xff, 0x0f],
        vec![0xff, 0xff, 0xff, 0xff, 0xff, 0x0f],
        vec![0xff, 0xff, 0xff, 0xff, 0xff, 0xff, 0x0f],
        vec![0xff, 0xff, 0xff, 0xff, 0xff, 0xff, 0xff, 0x0f],
        vec![0xff, 0xff, 0xff, 0xff, 0xff, 0xff, 0xff, 0xff, 0x0f],
        // Next ones are exceeding the max length of a varint
        vec![0xff, 0xff, 0xff, 0xff, 0xff, 0xff, 0xff, 0xff, 0x0f, 0x0f],
        vec![
            0xff, 0xff, 0xff, 0xff, 0xff, 0xff, 0xff, 0xff, 0x0f, 0x0f, 0x0f,
        ],
    ];

    let expected_lengths: Vec<usize> = vec![1, 2, 3, 4, 5, 6, 7, 8, 9, 9, 9];

    let mut i: usize = 0;
    while i < bytes_vec.len() {
        assert_eq!(expected_lengths[i], read_varint_byte_length(&bytes_vec[i]));
        i += 1;
    }
}

#[test]
fn test_noop() {
    // doing serialize and deserialize should give the input back
    let inputs: Vec<i64> = vec![
        0x01,
        0x1ff,
        0x123456,
        0x11223344,
        0x1122334455,
        0x112233445566,
        0x11223344556677,
        0x1928374655647382,
    ];
    for input in inputs {
        assert_eq!(input, read_varint(&serialize_to_varint(input)).0);
    }
}

#[test]
fn boundary_table() {
    assert_eq!((1, 1), read_varint(&vec![0x01]));
    assert_eq!((15, 1), read_varint(&vec![0x0f]));
    assert_eq!((128, 2), read_varint(&vec![0x81, 0x00]));
    assert_eq!((255, 2), read_varint(&vec![0x81, 0x7f]));
    assert_eq!((-1, 9), read_varint(&vec![0xff; 9]));

    // A short varint padded with zeros: the padding is never inspected.
    let mut padded: Vec<u8> = vec![0x0f];
    padded.resize(10, 0x00);
    assert_eq!((15, 1), read_varint(&padded));

    // Nine 0xff bytes followed by extra bytes: the extras are ignored.
    let mut long: Vec<u8> = vec![0xff; 9];
    long.push(0x12);
    long.push(0x34);
    assert_eq!((-1, 9), read_varint(&long));
}

#[test]
fn round_trip_extremes() {
    let inputs: Vec<i64> = vec![
        0,
        1,
        -1,
        127,
        128,
        16383,
        16384,
        i64::MAX,
        i64::MIN,
        0x00ff_ffff_ffff_ffff,
        0x0100_0000_0000_0000,
        -0x1928_3746_5564_7382,
    ];
    for input in inputs {
        let encoded: Vec<u8> = serialize_to_varint(input);
        let (value, consumed) = read_varint(&encoded);
        assert_eq!(input, value);
        assert_eq!(encoded.len(), consumed);
    }
}

#[test]
fn serialize_minimal_lengths() {
    assert_eq!(1, serialize_to_varint(0x00).len());
    assert_eq!(1, serialize_to_varint(0x7f).len());
    assert_eq!(2, serialize_to_varint(0x80).len());
    assert_eq!(2, serialize_to_varint(0x3fff).len());
    assert_eq!(3, serialize_to_varint(0x4000).len());
    assert_eq!(3, serialize_to_varint(0x1f_ffff).len());
    assert_eq!(4, serialize_to_varint(0x20_0000).len());
    assert_eq!(4, serialize_to_varint(0x0fff_ffff).len());
    assert_eq!(5, serialize_to_varint(0x1000_0000).len());
    assert_eq!(5, serialize_to_varint(0x7_ffff_ffff).len());
    assert_eq!(6, serialize_to_varint(0x8_0000_0000).len());
    assert_eq!(6, serialize_to_varint(0x3ff_ffff_ffff).len());
    assert_eq!(7, serialize_to_varint(0x400_0000_0000).len());
    assert_eq!(7, serialize_to_varint(0x1_ffff_ffff_ffff).len());
    assert_eq!(8, serialize_to_varint(0x2_0000_0000_0000).len());
    assert_eq!(8, serialize_to_varint(0xff_ffff_ffff_ffff).len());
    assert_eq!(9, serialize_to_varint(0x100_0000_0000_0000).len());
}

#[test]
fn serialize_negative_lengths() {
    assert_eq!(9, serialize_to_varint(-1).len());
    assert_eq!(9, serialize_to_varint(-2).len());
    assert_eq!(9, serialize_to_varint(-128).len());
    assert_eq!(9, serialize_to_varint(i64::MIN).len());
}

#[test]
fn probe_agrees_with_decode() {
    let bytes_vec: Vec<Vec<u8>> = vec![
        vec![0x00; 9],
        vec![0xff; 9],
        vec![0x81, 0x7f, 0x00, 0x00, 0x00, 0x00, 0x00, 0x00, 0x00],
        vec![0xff, 0xff, 0xff, 0x0f, 0xff, 0xff, 0xff, 0xff, 0xff],
        vec![0xff, 0xff, 0xff, 0xff, 0xff, 0xff, 0xff, 0xff, 0x00, 0x55],
    ];
    for bytes in bytes_vec {
        let (_, consumed) = read_varint(&bytes);
        assert_eq!(read_varint_byte_length(&bytes), consumed);
    }
}

#[test]
fn insufficient_input_is_an_error() {
    assert_eq!(Err(VarintError::InsufficientInput), try_read_varint(&[]));
    assert_eq!(Err(VarintError::InsufficientInput), try_read_varint(&[0xff]));
    assert_eq!(
        Err(VarintError::InsufficientInput),
        try_read_varint(&[0x80, 0x81, 0x82])
    );
    assert_eq!(
        Err(VarintError::InsufficientInput),
        try_read_varint(&[0xff; 8])
    );
    assert_eq!(
        Err(VarintError::InsufficientInput),
        try_read_varint_byte_length(&[])
    );
    assert_eq!(
        Err(VarintError::InsufficientInput),
        try_read_varint_byte_length(&[0x80])
    );
    assert!(!varint_is_complete(&[0xff; 8]));
}

#[test]
fn checked_reads_agree_with_unchecked() {
    let bytes_vec: Vec<Vec<u8>> = vec![
        vec![0x0f],
        vec![0x81, 0x7f],
        vec![0xff; 9],
        vec![0xff; 12],
        vec![0x80, 0x80, 0x80, 0x00],
    ];
    for bytes in bytes_vec {
        assert!(varint_is_complete(&bytes));
        assert_eq!(Ok(read_varint(&bytes)), try_read_varint(&bytes));
        assert_eq!(
            Ok(read_varint_byte_length(&bytes)),
            try_read_varint_byte_length(&bytes)
        );
    }
}
