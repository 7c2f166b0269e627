use pty_secret::parse::{
    parse_address_from_output, parse_private_key_from_output, parse_vanity_output,
    parse_vanity_text, parse_wallet_list, parse_wallet_output,
};

#[test]
fn private_key_after_label() {
    let out = "Enter password: \nKeystore decrypted, private key is: 0xdeadbeef  \n";
    assert_eq!(parse_private_key_from_output(out).unwrap(), "0xdeadbeef");
}

#[test]
fn private_key_stops_at_second_label() {
    let out = "private key is: a private key is: b";
    assert_eq!(parse_private_key_from_output(out).unwrap(), "a");
}

#[test]
fn private_key_missing() {
    assert_eq!(
        parse_private_key_from_output("wrong password").unwrap_err(),
        "Could not find private key in output"
    );
}

#[test]
fn address_after_label() {
    let out = "`mykey` keystore was saved successfully. Address: 0x1234abcd\n";
    assert_eq!(parse_address_from_output(out).unwrap(), "0x1234abcd");
}

#[test]
fn address_missing() {
    assert_eq!(parse_address_from_output("").unwrap_err(), "Could not find address in output");
}

#[test]
fn wallet_output_fields() {
    let out = "Successfully created new keypair.\n  Address:     0xAbC\nPrivate key: 0x0123\n";
    let w = parse_wallet_output(out).unwrap();
    assert_eq!(w.address, "0xAbC");
    assert_eq!(w.private_key, "0x0123");
}

#[test]
fn wallet_output_missing_fields() {
    assert_eq!(
        parse_wallet_output("Private key: 0x1\n").err().unwrap(),
        "Could not parse address from output"
    );
    assert_eq!(
        parse_wallet_output("Address: 0x1\r\n").err().unwrap(),
        "Could not parse private key from output"
    );
}

#[test]
fn vanity_text_fields() {
    let out = "Starting to generate vanity address...\nSuccessfully found vanity address in 0.5 seconds.\nAddress: 0xbeef00\nPrivate Key: 0x99\n";
    let w = parse_vanity_text(out).unwrap();
    assert_eq!(w.address, "0xbeef00");
    assert_eq!(w.private_key, "0x99");
}

#[test]
fn vanity_repeated_prefix() {
    let out = "a\nb\nAddress: Address: 0x1\r\nPrivate Key: k\n";
    let w = parse_vanity_text(out).unwrap();
    assert_eq!(w.address, "0x1");
    assert_eq!(w.private_key, "k");
}

#[test]
fn vanity_too_short() {
    assert_eq!(
        parse_vanity_output(b"a\nb\nc\n".to_vec()).err().unwrap(),
        "Unexpected output format"
    );
}

#[test]
fn vanity_bytes() {
    let out = b"x\ny\nAddress: 0xcafe\nPrivate Key: 0x01".to_vec();
    let w = parse_vanity_output(out).unwrap();
    assert_eq!(w.address, "0xcafe");
    assert_eq!(w.private_key, "0x01");
}

#[test]
fn wallet_list_names() {
    let out = "alice (Local)\n  bob  \ncarol (Local) (x)\n\n";
    assert_eq!(parse_wallet_list(out), vec!["alice", "bob", "carol", ""]);
    assert!(parse_wallet_list("").is_empty());
}
