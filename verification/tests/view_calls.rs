use memory_tracker::evm_args::{ArgsCodecError, ViewCallArgs};

#[test]
fn test_roundtrip_view_call() {
    let x = ViewCallArgs {
        sender: [1; 20],
        address: [2; 20],
        amount: [3; 32],
        args: vec![1, 2, 3],
    };
    let bytes = x.try_to_vec().unwrap();
    let res = ViewCallArgs::try_from_slice(&bytes).unwrap();
    assert_eq!(x, res);
    let res = ViewCallArgs::try_from_slice(&[0; 72]).unwrap();
    assert_eq!(res.args.len(), 0);
}

#[test]
fn test_view_call_fail() {
    let bytes = [0; 71];
    let _ = ViewCallArgs::try_from_slice(&bytes).unwrap_err();
}

#[test]
fn view_call_encoding_layout() {
    let x = ViewCallArgs {
        sender: [0xaa; 20],
        address: [0xbb; 20],
        amount: [0xcc; 32],
        args: vec![0xdd, 0xee],
    };
    let bytes = x.try_to_vec().unwrap();
    assert_eq!(bytes.len(), 74);
    assert!(bytes[0..20].iter().all(|&b| b == 0xaa));
    assert!(bytes[20..40].iter().all(|&b| b == 0xbb));
    assert!(bytes[40..72].iter().all(|&b| b == 0xcc));
    assert_eq!(&bytes[72..], &[0xdd, 0xee]);
}

#[test]
fn view_call_short_buffer_error_variant() {
    let res = ViewCallArgs::try_from_slice(&[]);
    assert_eq!(res.unwrap_err(), ArgsCodecError::UnexpectedLength);
    let res = ViewCallArgs::try_from_slice(&[7; 71]);
    assert_eq!(res.unwrap_err(), ArgsCodecError::UnexpectedLength);
}

#[test]
fn view_call_decode_fields() {
    let mut buf = Vec::new();
    buf.extend_from_slice(&[9; 20]);
    buf.extend_from_slice(&[8; 20]);
    buf.extend_from_slice(&[7; 32]);
    buf.extend_from_slice(&[1, 2, 3, 4]);
    let v = ViewCallArgs::try_from_slice(&buf).unwrap();
    assert_eq!(v.sender, [9; 20]);
    assert_eq!(v.address, [8; 20]);
    assert_eq!(v.amount, [7; 32]);
    assert_eq!(v.args, vec![1, 2, 3, 4]);
}
