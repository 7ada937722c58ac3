use mainframe_automation::client_interface::ClientAddress;

#[test]
fn addresses_of_a_session() {
    let client_address = ClientAddress::new("localhost:3270", 3271);
    assert_eq!(client_address.mainframe_address(), "localhost:3270");
    assert_eq!(client_address.client_address(), "localhost:3271");
}

#[test]
fn ports_are_written_in_decimal() {
    assert_eq!(ClientAddress::new("host", 0).client_address(), "localhost:0");
    assert_eq!(ClientAddress::new("host", 80).client_address(), "localhost:80");
    assert_eq!(ClientAddress::new("host", 65535).client_address(), "localhost:65535");
    assert_eq!(ClientAddress::new("", 1).mainframe_address(), "");
}

#[test]
fn emulator_is_started_with_its_addresses() {
    let client_address = ClientAddress::new("localhost:3270", 3271);
    assert_eq!(client_address.program(), "x3270");
    assert_eq!(
        client_address.arguments(),
        vec!["-scriptport", "localhost:3271", "-model", "3279-4", "localhost:3270"]
    );
}
