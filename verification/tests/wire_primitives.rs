use otlp_codec::field::{read_field, Chunk};
use otlp_codec::member::{
    frame, read_packed_fixed64, read_packed_varints, unframe, write_field_fixed32,
    write_field_fixed64, write_field_run, write_field_varint, write_member_fixed32,
    write_member_fixed64, write_member_packed_fixed64, write_member_run, write_member_varint,
    write_repeated_varints,
};
use otlp_codec::wire::{
    low32_of, low32_signed_of, read_fixed32, read_fixed64, read_varint, signed64_of,
    unsigned64_of, write_bytes, write_fixed32, write_fixed64, write_varint, zigzag32_decode,
    zigzag32_encode,
};
use quick_protobuf::{BytesReader, Writer};

fn varint(v: u64) -> Vec<u8> {
    let mut out = Vec::new();
    write_varint(&mut out, v);
    out
}

const SAMPLES: [u64; 24] = [
    0,
    1,
    2,
    127,
    128,
    129,
    255,
    256,
    300,
    16383,
    16384,
    2097151,
    2097152,
    268435455,
    268435456,
    u32::MAX as u64,
    u32::MAX as u64 + 1,
    1681339577345243523,
    (1 << 56) - 1,
    1 << 56,
    (1 << 63) - 1,
    1 << 63,
    u64::MAX - 1,
    u64::MAX,
];

#[test]
fn varint_exact_bytes() {
    assert_eq!(varint(0), vec![0]);
    assert_eq!(varint(1), vec![1]);
    assert_eq!(varint(127), vec![127]);
    assert_eq!(varint(128), vec![128, 1]);
    assert_eq!(varint(300), vec![172, 2]);
    assert_eq!(varint(16384), vec![128, 128, 1]);
    assert_eq!(
        varint(u64::MAX),
        vec![255, 255, 255, 255, 255, 255, 255, 255, 255, 1]
    );
    assert_eq!(
        varint(1 << 63),
        vec![128, 128, 128, 128, 128, 128, 128, 128, 128, 1]
    );
}

#[test]
fn varint_appends_to_what_is_there() {
    let mut out = vec![9, 8];
    write_varint(&mut out, 300);
    assert_eq!(out, vec![9, 8, 172, 2]);
}

#[test]
fn varint_reads_back() {
    for v in SAMPLES {
        let mut bytes = vec![0xff, 0x00];
        write_varint(&mut bytes, v);
        let end = bytes.len();
        bytes.push(0x80);
        assert_eq!(read_varint(&bytes, 2), Some((v, end)));
    }
}

#[test]
fn varint_as_the_reference_writer_has_it() {
    for v in SAMPLES {
        let mut reference = Vec::new();
        Writer::new(&mut reference).write_varint(v).expect("write");
        assert_eq!(varint(v), reference);
    }
}

#[test]
fn varint_as_the_reference_reader_has_it() {
    for v in SAMPLES {
        let bytes = varint(v);
        let mut reader = BytesReader::from_bytes(&bytes);
        assert_eq!(reader.read_varint64(&bytes).expect("read"), v);
        assert!(reader.is_eof());
    }
}

#[test]
fn varint_cut_short_is_refused() {
    assert_eq!(read_varint(&[], 0), None);
    assert_eq!(read_varint(&[0x80], 0), None);
    assert_eq!(read_varint(&[0xff, 0xff], 0), None);
    assert_eq!(read_varint(&[1, 0x80], 1), None);
    assert_eq!(read_varint(&[1], 1), None);
}

#[test]
fn varint_longer_than_ten_bytes_is_refused() {
    let bytes = [0x80, 0x80, 0x80, 0x80, 0x80, 0x80, 0x80, 0x80, 0x80, 0x80, 0x00];
    assert_eq!(read_varint(&bytes, 0), None);
}

#[test]
fn varint_beyond_64_bits_is_refused() {
    let bytes = [0xff, 0xff, 0xff, 0xff, 0xff, 0xff, 0xff, 0xff, 0xff, 0x02];
    assert_eq!(read_varint(&bytes, 0), None);
    let bytes = [0x80, 0x80, 0x80, 0x80, 0x80, 0x80, 0x80, 0x80, 0x80, 0x7f];
    assert_eq!(read_varint(&bytes, 0), None);
}

#[test]
fn varint_with_idle_bytes_is_read() {
    assert_eq!(read_varint(&[0x80, 0x00], 0), Some((0, 2)));
    assert_eq!(read_varint(&[0x81, 0x80, 0x00], 0), Some((1, 3)));
    let bytes = [0x80, 0x80, 0x80, 0x80, 0x80, 0x80, 0x80, 0x80, 0x80, 0x00];
    assert_eq!(read_varint(&bytes, 0), Some((0, 10)));
}

#[test]
fn fixed_width_exact_bytes() {
    let mut out = Vec::new();
    write_fixed64(&mut out, 0x0102030405060708);
    assert_eq!(out, vec![8, 7, 6, 5, 4, 3, 2, 1]);
    let mut out = Vec::new();
    write_fixed32(&mut out, 0x01020304);
    assert_eq!(out, vec![4, 3, 2, 1]);
    let mut out = Vec::new();
    write_fixed64(&mut out, 1681339577345243523);
    assert_eq!(out, vec![131, 249, 119, 254, 111, 81, 85, 23]);
    let mut out = Vec::new();
    write_fixed64(&mut out, 3.7_f64.to_bits());
    assert_eq!(out, vec![154, 153, 153, 153, 153, 153, 13, 64]);
}

#[test]
fn fixed_width_reads_back() {
    for v in SAMPLES {
        let mut bytes = vec![7];
        write_fixed64(&mut bytes, v);
        assert_eq!(read_fixed64(&bytes, 1), Some((v, 9)));
        let mut bytes = vec![7, 7];
        write_fixed32(&mut bytes, v as u32);
        assert_eq!(read_fixed32(&bytes, 2), Some((v as u32, 6)));
    }
}

#[test]
fn fixed_width_as_the_reference_has_it() {
    for v in SAMPLES {
        let mut reference = Vec::new();
        Writer::new(&mut reference).write_fixed64(v).expect("write");
        let mut out = Vec::new();
        write_fixed64(&mut out, v);
        assert_eq!(out, reference);
        let mut reference = Vec::new();
        Writer::new(&mut reference)
            .write_fixed32(v as u32)
            .expect("write");
        let mut out = Vec::new();
        write_fixed32(&mut out, v as u32);
        assert_eq!(out, reference);
    }
}

#[test]
fn fixed_width_cut_short_is_refused() {
    assert_eq!(read_fixed64(&[1, 2, 3, 4, 5, 6, 7], 0), None);
    assert_eq!(read_fixed64(&[1, 2, 3, 4, 5, 6, 7, 8], 1), None);
    assert_eq!(read_fixed64(&[], 0), None);
    assert_eq!(read_fixed32(&[1, 2, 3], 0), None);
    assert_eq!(read_fixed32(&[1, 2, 3, 4], 1), None);
}

#[test]
fn zigzag_exact_values() {
    assert_eq!(zigzag32_encode(0), 0);
    assert_eq!(zigzag32_encode(-1), 1);
    assert_eq!(zigzag32_encode(1), 2);
    assert_eq!(zigzag32_encode(-2), 3);
    assert_eq!(zigzag32_encode(10), 20);
    assert_eq!(zigzag32_encode(i32::MAX), 4294967294);
    assert_eq!(zigzag32_encode(i32::MIN), 4294967295);
    assert_eq!(zigzag32_decode(0), 0);
    assert_eq!(zigzag32_decode(1), -1);
    assert_eq!(zigzag32_decode(2), 1);
    assert_eq!(zigzag32_decode(3), -2);
    assert_eq!(zigzag32_decode(4294967294), i32::MAX);
    assert_eq!(zigzag32_decode(4294967295), i32::MIN);
}

#[test]
fn zigzag_as_the_reference_has_it() {
    let small = [0, 1, -1, 2, -2, 10, -10, 1 << 20, -(1 << 20), (1 << 30) - 1, -(1 << 30)];
    for v in small {
        let mut reference = Vec::new();
        Writer::new(&mut reference).write_sint32(v).expect("write");
        assert_eq!(varint(zigzag32_encode(v) as u64), reference);
    }
    for v in [0, 1, -1, 1 << 30, -(1 << 30) - 1, i32::MAX, i32::MIN] {
        let ours = varint(zigzag32_encode(v) as u64);
        let mut reader = BytesReader::from_bytes(&ours);
        assert_eq!(reader.read_sint32(&ours).expect("read"), v);
        assert_eq!(zigzag32_decode(zigzag32_encode(v)), v);
        let mut reference = Vec::new();
        Writer::new(&mut reference).write_sint32(v).expect("write");
        let (value, _) = read_varint(&reference, 0).expect("read");
        assert_eq!(zigzag32_decode(low32_of(value)), v);
    }
}

#[test]
fn signs_and_widths() {
    assert_eq!(low32_of(0), 0);
    assert_eq!(low32_of(u32::MAX as u64), u32::MAX);
    assert_eq!(low32_of(u32::MAX as u64 + 1), 0);
    assert_eq!(low32_of(u64::MAX), u32::MAX);
    assert_eq!(low32_signed_of(9), 9);
    assert_eq!(low32_signed_of(u64::MAX), -1);
    assert_eq!(low32_signed_of(0x8000_0000), i32::MIN);
    assert_eq!(low32_signed_of(0x7fff_ffff), i32::MAX);
    assert_eq!(unsigned64_of(0), 0);
    assert_eq!(unsigned64_of(-1), u64::MAX);
    assert_eq!(unsigned64_of(i64::MIN), 1 << 63);
    assert_eq!(unsigned64_of(i64::MAX), (1 << 63) - 1);
    assert_eq!(signed64_of(u64::MAX), -1);
    assert_eq!(signed64_of(1 << 63), i64::MIN);
    assert_eq!(signed64_of((1 << 63) - 1), i64::MAX);
    for v in [0, 1, -1, 10, -10, i64::MAX, i64::MIN] {
        assert_eq!(signed64_of(unsigned64_of(v)), v);
        let mut reference = Vec::new();
        Writer::new(&mut reference).write_int64(v).expect("write");
        assert_eq!(varint(unsigned64_of(v)), reference);
    }
}

#[test]
fn bytes_are_appended() {
    let mut out = vec![1];
    write_bytes(&mut out, &[2, 3]);
    write_bytes(&mut out, &[]);
    assert_eq!(out, vec![1, 2, 3]);
}

#[test]
fn fields_exact_bytes() {
    let mut out = Vec::new();
    write_field_varint(&mut out, 2, 10);
    assert_eq!(out, vec![16, 10]);
    let mut out = Vec::new();
    write_field_varint(&mut out, 2, 0);
    assert_eq!(out, vec![16, 0]);
    let mut out = Vec::new();
    write_field_fixed64(&mut out, 6, 10);
    assert_eq!(out, vec![49, 10, 0, 0, 0, 0, 0, 0, 0]);
    let mut out = Vec::new();
    write_field_fixed32(&mut out, 8, 1);
    assert_eq!(out, vec![69, 1, 0, 0, 0]);
    let mut out = Vec::new();
    write_field_run(&mut out, 1, b"test");
    assert_eq!(out, vec![10, 4, 116, 101, 115, 116]);
    let mut out = Vec::new();
    write_field_run(&mut out, 15, &[]);
    assert_eq!(out, vec![122, 0]);
    let mut out = Vec::new();
    write_field_varint(&mut out, 1000, 1);
    assert_eq!(out, vec![192, 62, 1]);
    let mut out = Vec::new();
    write_field_varint(&mut out, u32::MAX, 1);
    assert_eq!(out, vec![248, 255, 255, 255, 127, 1]);
}

#[test]
fn members_at_zero_are_left_out() {
    let mut out = Vec::new();
    write_member_varint(&mut out, 1, 0);
    write_member_fixed64(&mut out, 2, 0);
    write_member_fixed32(&mut out, 3, 0);
    write_member_run(&mut out, 4, &[]);
    write_member_packed_fixed64(&mut out, 5, &Vec::new());
    write_repeated_varints(&mut out, 6, &Vec::new());
    assert_eq!(out, Vec::<u8>::new());
}

#[test]
fn members_not_at_zero_are_written() {
    let mut out = Vec::new();
    write_member_varint(&mut out, 1, 1);
    write_member_fixed64(&mut out, 2, 1);
    write_member_fixed32(&mut out, 3, 1);
    write_member_run(&mut out, 4, &[0]);
    write_member_packed_fixed64(&mut out, 5, &vec![1, 2]);
    write_repeated_varints(&mut out, 6, &vec![0, 300]);
    assert_eq!(
        out,
        vec![
            8, 1, 17, 1, 0, 0, 0, 0, 0, 0, 0, 29, 1, 0, 0, 0, 34, 1, 0, 42, 16, 1, 0, 0, 0, 0, 0,
            0, 0, 2, 0, 0, 0, 0, 0, 0, 0, 48, 0, 48, 172, 2
        ]
    );
}

#[test]
fn fields_read_back() {
    let mut bytes = Vec::new();
    write_field_varint(&mut bytes, 3, 300);
    write_field_fixed64(&mut bytes, 4, 77);
    write_field_run(&mut bytes, 5, b"abc");
    write_field_fixed32(&mut bytes, 6, 9);
    let (f, pos) = read_field(&bytes, 0).expect("first");
    assert_eq!(f.number, 3);
    assert!(matches!(f.chunk, Chunk::Varint(300)));
    let (f, pos) = read_field(&bytes, pos).expect("second");
    assert_eq!(f.number, 4);
    assert!(matches!(f.chunk, Chunk::Fixed64(77)));
    let (f, pos) = read_field(&bytes, pos).expect("third");
    assert_eq!(f.number, 5);
    assert!(matches!(f.chunk, Chunk::Run(b"abc")));
    let (f, pos) = read_field(&bytes, pos).expect("fourth");
    assert_eq!(f.number, 6);
    assert!(matches!(f.chunk, Chunk::Fixed32(9)));
    assert_eq!(pos, bytes.len());
    assert!(read_field(&bytes, pos).is_none());
}

#[test]
fn fields_of_other_wire_types_are_refused() {
    for wire_type in [3u8, 4, 6, 7] {
        let bytes = [8 + wire_type, 0, 0, 0, 0, 0, 0, 0, 0, 0];
        assert!(read_field(&bytes, 0).is_none());
    }
}

#[test]
fn field_that_claims_too_much_is_refused() {
    assert!(read_field(&[10, 4, 116, 101, 115], 0).is_none());
    assert!(read_field(&[10, 3, 116, 101, 115], 0).is_some());
    assert!(read_field(&[10], 0).is_none());
    assert!(read_field(&[8], 0).is_none());
    assert!(read_field(&[9, 1, 2, 3], 0).is_none());
    assert!(read_field(&[13, 1, 2, 3], 0).is_none());
    assert!(read_field(&[10, 255, 255, 255, 255, 255, 255, 255, 255, 255, 1], 0).is_none());
}

#[test]
fn field_number_beyond_32_bits_is_refused() {
    let mut bytes = Vec::new();
    write_varint(&mut bytes, (u32::MAX as u64 + 1) * 8);
    bytes.push(1);
    assert!(read_field(&bytes, 0).is_none());
    let mut bytes = Vec::new();
    write_varint(&mut bytes, (u32::MAX as u64) * 8);
    bytes.push(1);
    let (f, _) = read_field(&bytes, 0).expect("field");
    assert_eq!(f.number, u32::MAX);
}

#[test]
fn packed_values_read_back() {
    let mut out = Vec::new();
    write_member_packed_fixed64(&mut out, 6, &vec![1, 2, u64::MAX]);
    let (f, _) = read_field(&out, 0).expect("field");
    let run = match f.chunk {
        Chunk::Run(r) => r,
        _ => panic!("no run"),
    };
    let mut into = vec![5];
    assert!(read_packed_fixed64(run, &mut into));
    assert_eq!(into, vec![5, 1, 2, u64::MAX]);
    let mut into = Vec::new();
    assert!(!read_packed_fixed64(&run[1..], &mut into));
    let mut into = Vec::new();
    assert!(read_packed_fixed64(&[], &mut into));
    assert_eq!(into, Vec::<u64>::new());
}

#[test]
fn packed_varints_read_back() {
    let mut run = Vec::new();
    for v in SAMPLES {
        write_varint(&mut run, v);
    }
    let mut into = Vec::new();
    assert!(read_packed_varints(&run, &mut into));
    assert_eq!(into, SAMPLES.to_vec());
    run.push(0x80);
    let mut into = Vec::new();
    assert!(!read_packed_varints(&run, &mut into));
}

#[test]
fn frames() {
    assert_eq!(frame(&[]), vec![0]);
    assert_eq!(frame(b"abc"), vec![3, 97, 98, 99]);
    let long = vec![7u8; 300];
    let framed = frame(&long);
    assert_eq!(&framed[..2], &[172, 2]);
    assert_eq!(unframe(&framed), Some(&long[..]));
    assert_eq!(unframe(&[3, 97, 98, 99, 100]), Some(&b"abc"[..]));
    assert_eq!(unframe(&[0]), Some(&b""[..]));
    assert_eq!(unframe(&[3, 97, 98]), None);
    assert_eq!(unframe(&[]), None);
    assert_eq!(unframe(&[0x80]), None);
}
