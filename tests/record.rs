use mempool::error::Error;
use mempool::record::record_fields;

fn text(field: &Option<Vec<u8>>) -> Option<&str> {
    field.as_ref().map(|b| std::str::from_utf8(b).unwrap())
}

#[test]
fn reads_all_fields() {
    let line = "TxHash=abc Gas=21000 FeePerGas=0.5 Signature=sig";
    let f = record_fields(line.as_bytes()).unwrap();
    assert_eq!(text(&f.tx_hash), Some("abc"));
    assert_eq!(text(&f.gas), Some("21000"));
    assert_eq!(text(&f.fee_per_gas), Some("0.5"));
    assert_eq!(text(&f.signature), Some("sig"));
}

#[test]
fn later_piece_overrides_earlier() {
    let f = record_fields("Gas=1 TxHash=x Gas=2".as_bytes()).unwrap();
    assert_eq!(text(&f.gas), Some("2"));
    assert_eq!(text(&f.tx_hash), Some("x"));
    assert_eq!(f.signature, None);
    assert_eq!(f.fee_per_gas, None);
}

#[test]
fn value_stops_at_second_equals() {
    let f = record_fields("Signature=ab=cd TxHash=".as_bytes()).unwrap();
    assert_eq!(text(&f.signature), Some("ab"));
    assert_eq!(text(&f.tx_hash), Some(""));
}

#[test]
fn piece_without_equals_is_refused() {
    assert_eq!(
        record_fields("TxHash=a Gas".as_bytes()).err(),
        Some(Error::InvalidTransactionFormat)
    );
}

#[test]
fn empty_line_is_refused() {
    assert_eq!(record_fields(b"").err(), Some(Error::InvalidTransactionFormat));
}

#[test]
fn doubled_space_is_refused() {
    assert_eq!(
        record_fields("TxHash=a  Gas=1".as_bytes()).err(),
        Some(Error::InvalidTransactionFormat)
    );
    assert_eq!(
        record_fields("TxHash=a ".as_bytes()).err(),
        Some(Error::InvalidTransactionFormat)
    );
}
