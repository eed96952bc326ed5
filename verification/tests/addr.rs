use peg_metrics::addr::{decode_addr, AddressError};
use peg_metrics::asset::{assemble_asset, Asset};
use peg_metrics::retry::FetchError;

#[test]
fn decodes_with_prefix() {
    let bytes = decode_addr("0xB3D22267E7260ec6c3931d50D215ABa5Fd54506a").unwrap();
    assert_eq!(bytes.len(), 20);
    assert_eq!(bytes[0], 0xb3);
    assert_eq!(bytes[1], 0xd2);
    assert_eq!(bytes[19], 0x6a);
}

#[test]
fn decodes_without_prefix() {
    let with = decode_addr("0x21be370d5312f44cb42ce377bc9b8a0cef1a4c83").unwrap();
    let without = decode_addr("21be370d5312f44cb42ce377bc9b8a0cef1a4c83").unwrap();
    assert_eq!(with, without);
}

#[test]
fn rejects_malformed_hex() {
    assert_eq!(
        decode_addr("0xzz652A9FAc95B5203f44aa3492200b6aE6aD84e0"),
        Err(AddressError::InvalidHex)
    );
    // odd number of digits
    assert_eq!(decode_addr("0x123"), Err(AddressError::InvalidHex));
}

#[test]
fn rejects_wrong_length() {
    assert_eq!(decode_addr("0x1234"), Err(AddressError::WrongLength));
    assert_eq!(decode_addr(""), Err(AddressError::WrongLength));
}

#[test]
fn assembles_when_every_read_succeeded() {
    let address = vec![0xde, 0xad, 0xbe, 0xef];
    let asset = assemble_asset(
        &address,
        Ok(18),
        Ok(String::from("Wrapped Fantom")),
        Ok(String::from("WFTM")),
        Ok(2_500_000_000_000_000_000),
    )
    .unwrap();
    // the address is rendered as lower-case hex, not handed back raw
    assert_eq!(asset.t, "deadbeef");
    assert_eq!(asset.d, 18);
    assert_eq!(asset.name, "Wrapped Fantom");
    assert_eq!(asset.symbol, "WFTM");
    assert_eq!(asset.ts, 2_500_000_000_000_000_000);
}

#[test]
fn partial_failure_fails_the_whole_fetch() {
    let address = vec![0xde, 0xad, 0xbe, 0xef];
    let r = assemble_asset(
        &address,
        Ok(18),
        Err(FetchError::Transport),
        Ok(String::from("WFTM")),
        Ok(1),
    );
    assert!(matches!(r, Err(FetchError::Transport)));
}

#[test]
fn first_failing_read_is_reported() {
    let address = vec![0x00];
    let r = assemble_asset(
        &address,
        Err(FetchError::Decode),
        Err(FetchError::Transport),
        Ok(String::from("x")),
        Ok(1),
    );
    assert!(matches!(r, Err(FetchError::Decode)));
}

#[test]
fn asset_constructor_keeps_its_fields() {
    let a = Asset::new(
        String::from("04068da6c83afcfa0e13ba15a6696662335d5b75"),
        6,
        String::from("USD Coin"),
        String::from("USDC"),
        7,
    );
    assert_eq!(a.t, "04068da6c83afcfa0e13ba15a6696662335d5b75");
    assert_eq!(a.d, 6);
    assert_eq!(a.name, "USD Coin");
    assert_eq!(a.symbol, "USDC");
    assert_eq!(a.ts, 7);
}
