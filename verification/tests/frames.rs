use bytes::BufMut;
use http_server::frames::{Frame, Operation};

fn host_is_little_endian() -> bool {
    1u16.to_be() != 1u16
}

#[test]
fn from_bytes_test() {
    let mut buf = vec![];

    let length = 2;
    let op = 0;
    let temp = length << 2 | op;

    buf.put_u16(temp);

    buf.put_i32((-2 as i32).to_be());
    buf.put_i32((1 as i32).to_be());

    let f = Frame::from_bytes(buf.as_ref());

    assert_eq!(f.op, Operation::Put);
    assert_eq!(f.body.len(), 2);
    assert_eq!(f.body, vec![-2, 1]);
}

#[test]
fn test_to_bytes() {
    let f = Frame::new(vec![-2, 1], Operation::Put);

    let mut buf = vec![];

    let length = 2;
    let op = 0;
    let temp = length << 2 | op;
    buf.put_u16(temp);
    buf.put_i32((-2 as i32).to_be());
    buf.put_i32((1 as i32).to_be());

    assert_eq!(buf, f.to_bytes());
}

#[test]
fn reciprocity() {
    let s = Frame::new(vec![-2, 1], Operation::Put);
    let f = Frame::new(vec![-2, 1], Operation::Put);

    let buf = f.to_bytes();

    let f = Frame::from_bytes(buf.as_ref());

    assert_eq!(f, s);
}

#[test]
fn to_bytes_header_and_native_body() {
    let bytes = Frame::new(vec![-2, 1], Operation::Put).to_bytes();
    assert_eq!(bytes.len(), 2 + 4 * 2);
    assert_eq!(&bytes[..2], &[0x00, 0x08]);
    if host_is_little_endian() {
        assert_eq!(&bytes[2..], &[0xfe, 0xff, 0xff, 0xff, 0x01, 0x00, 0x00, 0x00]);
    } else {
        assert_eq!(&bytes[2..], &[0xff, 0xff, 0xff, 0xfe, 0x00, 0x00, 0x00, 0x01]);
    }
}

#[test]
fn to_bytes_operation_codes() {
    // Get: (3 << 2) | 1
    let bytes = Frame::new(vec![7, 8, 9], Operation::Get).to_bytes();
    assert_eq!(&bytes[..2], &[0x00, 13]);
    assert_eq!(bytes.len(), 14);
    // Unknown: code 64 or-ed into the header
    let bytes = Frame::new(vec![], Operation::Unknown).to_bytes();
    assert_eq!(bytes, vec![0x00, 64]);
    let bytes = Frame::new(vec![5], Operation::Unknown).to_bytes();
    assert_eq!(&bytes[..2], &[0x00, 64 | 4]);
}

#[test]
fn to_bytes_long_body_header_loses_high_bits() {
    // 0x4001 integers: the header keeps only (0x4001 << 2) mod 2^16 = 4.
    let body = vec![0i32; 0x4001];
    let bytes = Frame::new(body, Operation::Put).to_bytes();
    assert_eq!(&bytes[..2], &[0x00, 0x04]);
    assert_eq!(bytes.len(), 2 + 4 * 0x4001);
}

#[test]
fn to_bytes_body_cut_to_sixteen_bits() {
    // 0x10001 integers: only 0x10001 mod 2^16 = 1 of them is written.
    let body = vec![3i32; 0x10001];
    let bytes = Frame::new(body, Operation::Put).to_bytes();
    assert_eq!(bytes.len(), 2 + 4);
    assert_eq!(&bytes[..2], &[0x00, 0x04]);
}

#[test]
fn roundtrip_put_frames() {
    for n in [0usize, 1, 5, 63, 256, 300, 0x3f3f] {
        if host_is_little_endian() && n % 256 >= 64 {
            continue;
        }
        let body: Vec<i32> = (0..n).map(|i| (i as i32) * 7919 - 1_000_000).collect();
        let f = Frame::new(body.clone(), Operation::Put);
        let back = Frame::from_bytes(f.to_bytes().as_ref());
        assert_eq!(back, Frame::new(body, Operation::Put));
    }
}

#[test]
fn roundtrip_get_frame_depends_on_host() {
    let bytes = Frame::new(vec![i32::MIN, i32::MAX, 0], Operation::Get).to_bytes();
    let back = Frame::try_from_bytes(bytes.as_ref());
    if host_is_little_endian() {
        // The header is read with its bytes exchanged: the code lands in the
        // high byte and the length read is 0x4003, far more than is there.
        assert_eq!(back, None);
    } else {
        assert_eq!(back, Some(Frame::new(vec![i32::MIN, i32::MAX, 0], Operation::Get)));
    }
}

#[test]
fn roundtrip_fails_for_unknown() {
    // Code 64 sets a length bit: the header announces 16 integers.
    let bytes = Frame::new(vec![], Operation::Unknown).to_bytes();
    assert_eq!(Frame::try_from_bytes(bytes.as_ref()), None);
    let mut padded = bytes.clone();
    padded.extend_from_slice(&[0u8; 64]);
    let back = Frame::from_bytes(padded.as_ref());
    assert_eq!(back.op, Operation::Put);
    assert_eq!(back.body, vec![0; 16]);
}

#[test]
fn from_bytes_ignores_trailing_bytes() {
    let mut bytes = Frame::new(vec![10, -20], Operation::Put).to_bytes();
    bytes.extend_from_slice(&[1, 2, 3, 4, 5]);
    let back = Frame::from_bytes(bytes.as_ref());
    assert_eq!(back, Frame::new(vec![10, -20], Operation::Put));
}

#[test]
fn from_bytes_reads_code_from_header() {
    // Header bytes 0x00 0x04: on a big-endian host length 1 and code 0; on a
    // little-endian host the word is 0x0400, again code 0 and length 1.
    let bytes = vec![0x00, 0x04, 1, 2, 3, 4];
    let f = Frame::from_bytes(bytes.as_ref());
    assert_eq!(f.op, Operation::Put);
    assert_eq!(f.body.len(), 1);
    if host_is_little_endian() {
        assert_eq!(f.body, vec![0x04030201]);
    } else {
        assert_eq!(f.body, vec![0x01020304]);
    }
    // A header whose code bits read 1 gives Get.
    let bytes = if host_is_little_endian() { vec![0x01, 0x00] } else { vec![0x00, 0x01] };
    let f = Frame::from_bytes(bytes.as_ref());
    assert_eq!(f.op, Operation::Get);
    assert_eq!(f.body, vec![]);
    // A header whose code bits read 2 gives Unknown.
    let bytes = if host_is_little_endian() { vec![0x02, 0x00] } else { vec![0x00, 0x02] };
    let f = Frame::from_bytes(bytes.as_ref());
    assert_eq!(f.op, Operation::Unknown);
    assert_eq!(f.body, vec![]);
}

#[test]
fn try_from_bytes_checks_length() {
    assert_eq!(Frame::try_from_bytes(&[]), None);
    assert_eq!(Frame::try_from_bytes(&[0x00]), None);
    let bytes = Frame::new(vec![1, 2, 3], Operation::Put).to_bytes();
    assert_eq!(Frame::try_from_bytes(&bytes[..bytes.len() - 1]), None);
    assert_eq!(
        Frame::try_from_bytes(bytes.as_ref()),
        Some(Frame::new(vec![1, 2, 3], Operation::Put))
    );
    assert_eq!(Frame::try_from_bytes(&[0x00, 0x00]), Some(Frame::new(vec![], Operation::Put)));
}

#[test]
fn parse_body_reads_native_integers() {
    let mut bytes = vec![];
    for v in [1i32, -1, 0x12345678] {
        bytes.extend_from_slice(&v.to_ne_bytes());
    }
    assert_eq!(Frame::parse_body(&bytes, 3), vec![1, -1, 0x12345678]);
    assert_eq!(Frame::parse_body(&bytes, 1), vec![1]);
    assert_eq!(Frame::parse_body(&bytes, 0), Vec::<i32>::new());
}
