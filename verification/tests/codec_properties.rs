use arbitrary_rust::products::{Nested, Record};
use arbitrary_rust::Arbitrary;
use arbitrary_rust::MAX_COLLECTIONS_SIZE;

#[test]
fn scalar_exact_bytes() {
    assert_eq!(0x0201u16.to_bytes(), vec![0x01, 0x02]);
    assert_eq!(5u64.to_bytes(), vec![5, 0, 0, 0, 0, 0, 0, 0]);
    assert_eq!(true.to_bytes(), vec![0xff]);
    assert_eq!(false.to_bytes(), vec![0x00]);
    assert_eq!('A'.to_bytes(), vec![65]);
    assert_eq!((-1i16).to_bytes(), vec![0xff, 0xff]);
    assert_eq!((-128i8).to_bytes(), vec![0x80]);
    assert_eq!(
        3usize.to_bytes().len(),
        std::mem::size_of::<usize>(),
        "length prefix is platform-width"
    );
}

#[test]
fn scalar_extreme_round_trips() {
    assert_eq!(u64::MAX, u64::from_bytes(u64::MAX.to_bytes()));
    assert_eq!(u128::MAX, u128::from_bytes(u128::MAX.to_bytes()));
    assert_eq!(usize::MAX, usize::from_bytes(usize::MAX.to_bytes()));
    assert_eq!(i8::MIN, i8::from_bytes(i8::MIN.to_bytes()));
    assert_eq!(i64::MIN, i64::from_bytes(i64::MIN.to_bytes()));
    assert_eq!(i128::MIN, i128::from_bytes(i128::MIN.to_bytes()));
    assert_eq!(i128::MAX, i128::from_bytes(i128::MAX.to_bytes()));
    assert_eq!(isize::MIN, isize::from_bytes(isize::MIN.to_bytes()));
    assert_eq!(isize::MAX, isize::from_bytes(isize::MAX.to_bytes()));
    assert_eq!(-1isize, isize::from_bytes((-1isize).to_bytes()));
}

#[test]
fn truncated_scalar_yields_zero_without_consuming() {
    assert_eq!(0u32, u32::from_bytes(vec![1, 2]));
    assert_eq!(0u64, u64::from_bytes(vec![]));
    assert_eq!(false, bool::from_bytes(vec![]));
    let input: &[u8] = &[1, 2];
    let (v, rest) = <u32 as Arbitrary>::build_from_bytes(input);
    assert_eq!(v, 0);
    assert_eq!(rest, input, "cursor left unadvanced");
}

#[test]
fn bool_tag_must_be_exactly_ff() {
    assert_eq!(true, bool::from_bytes(vec![0xff]));
    assert_eq!(false, bool::from_bytes(vec![0x01]));
    assert_eq!(false, bool::from_bytes(vec![0xfe]));
    assert_eq!(false, bool::from_bytes(vec![0x00]));
}

#[test]
fn oversized_length_prefix_is_clamped() {
    // A claimed element count far beyond the cap must not allocate
    // proportionally: the decode materializes at most the capped count.
    let mut buf = usize::MAX.to_bytes();
    let mut first = 7i128.to_bytes();
    buf.append(&mut first);
    let v = Vec::<i128>::from_bytes(buf);
    assert_eq!(v.len(), MAX_COLLECTIONS_SIZE / std::mem::size_of::<i128>());
    assert_eq!(v[0], 7);
    assert!(v[1..].iter().all(|&x| x == 0));

    let s = String::from_bytes(usize::MAX.to_bytes());
    assert_eq!(s.chars().count(), MAX_COLLECTIONS_SIZE);
    assert!(s.chars().all(|c| c == '\0'));
}

#[test]
fn strict_prefix_decode_is_total() {
    let record = Record {
        nested: Nested {
            nested: Some(3),
            name: "abc".to_string(),
        },
        result: Err(true),
        array: vec![-5, 5],
    };
    let enc = record.to_bytes();
    for k in 0..enc.len() {
        let prefix = &enc[..k];
        let (_, rest) = Record::build_from_bytes(prefix);
        assert!(rest.len() <= prefix.len());
    }
}

#[test]
fn optional_boundary() {
    assert_eq!(None::<u32>, Option::<u32>::from_bytes(None::<u32>.to_bytes()));
    assert_eq!(Some(9u32), Option::<u32>::from_bytes(Some(9u32).to_bytes()));
    // A tag byte that is neither 0x00 nor the canonical 0xff still decodes
    // as present.
    let mut buf = vec![0x01u8];
    let mut payload = 7u64.to_bytes();
    buf.append(&mut payload);
    assert_eq!(Some(7u64), Option::<u64>::from_bytes(buf));
    // An absent tag consumes nothing further.
    let input: &[u8] = &[0x00, 0xaa, 0xbb];
    let (v, rest) = <Option<u64> as Arbitrary>::build_from_bytes(input);
    assert_eq!(v, None);
    assert_eq!(rest, &[0xaa, 0xbb]);
}

#[test]
fn result_both_branches_consume_payload() {
    assert_eq!(
        Ok(10u64),
        Result::<u64, bool>::from_bytes(Ok::<u64, bool>(10).to_bytes())
    );
    assert_eq!(
        Err(true),
        Result::<u64, bool>::from_bytes(Err::<u64, bool>(true).to_bytes())
    );
    // An empty buffer reads tag zero, then decodes the error payload from
    // nothing: a zero-valued error, unlike the optional's bare absence.
    assert_eq!(Err(false), Result::<u64, bool>::from_bytes(vec![]));
    // A non-canonical nonzero tag decodes the success payload.
    let mut buf = vec![0x2au8];
    let mut payload = 11u64.to_bytes();
    buf.append(&mut payload);
    assert_eq!(Ok(11u64), Result::<u64, bool>::from_bytes(buf));
}

#[test]
fn char_one_byte_width() {
    // Code points 0-255 round-trip through the one-byte codec.
    assert_eq!('\u{e9}', char::from_bytes('\u{e9}'.to_bytes()));
    assert_eq!('\0', char::from_bytes('\0'.to_bytes()));
    // A wider code point is truncated to its low byte on encode.
    assert_eq!('\u{100}'.to_bytes(), vec![0x00]);
    assert_eq!('\0', char::from_bytes('\u{100}'.to_bytes()));
}

#[test]
fn string_decode_reads_characters_in_order() {
    let mut buf = 2usize.to_bytes();
    buf.push(104);
    buf.push(105);
    let mut long = buf.clone();
    long.push(0xff);
    assert_eq!("hi".to_string(), String::from_bytes(buf));
    let (s, rest) = <String as Arbitrary>::build_from_bytes(long.as_slice());
    assert_eq!(s, "hi".to_string());
    assert_eq!(rest, &[0xff]);
}

#[test]
fn nested_sequences_thread_the_remainder() {
    let v: Vec<Vec<Vec<u16>>> = vec![vec![vec![], vec![60000]], vec![vec![1, 2, 3]]];
    assert_eq!(v, Vec::<Vec<Vec<u16>>>::from_bytes(v.to_bytes()));
    let empty: Vec<Vec<i32>> = vec![];
    assert_eq!(empty, Vec::<Vec<i32>>::from_bytes(empty.to_bytes()));
}

#[test]
fn tuple_arities_round_trip() {
    let t4 = (1u8, -2i16, "xy".to_string(), Some(false));
    assert_eq!(
        t4,
        <(u8, i16, String, Option<bool>)>::from_bytes(t4.to_bytes())
    );
    let t5 = (0u128, 1u8, 2u16, 3u32, 4u64);
    assert_eq!(
        t5,
        <(u128, u8, u16, u32, u64)>::from_bytes(t5.to_bytes())
    );
    // Arity 0 is zero bytes.
    assert_eq!(().to_bytes(), Vec::<u8>::new());
}

#[test]
fn product_type_fields_in_declaration_order() {
    let n = Nested {
        nested: None,
        name: "pq".to_string(),
    };
    // Declaration order: the optional field's tag byte comes first.
    let enc = n.to_bytes();
    assert_eq!(enc[0], 0x00);
    let mut expected = vec![0x00u8];
    let mut name_bytes = "pq".to_string().to_bytes();
    expected.append(&mut name_bytes);
    assert_eq!(enc, expected);
    assert_eq!(n, Nested::from_bytes(n.to_bytes()));
}
