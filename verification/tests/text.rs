use portkill::port::port_from_network;
use portkill::text::{append_decimal, append_prefixed_hex, join};

fn decimal(value: u32) -> String {
    let mut text = String::from("n=");
    append_decimal(&mut text, value);
    text
}

fn hex(value: u32) -> String {
    let mut text = String::from("n=");
    append_prefixed_hex(&mut text, value);
    text
}

#[test]
fn numbers_are_written_as_the_standard_library_does() {
    for value in [0, 9, 10, 15, 16, 255, 256, 1_000_000, 0xdead_beef, u32::MAX] {
        assert_eq!(decimal(value), format!("n={value}"));
        assert_eq!(hex(value), format!("n={value:#x}"));
    }
    assert_eq!(decimal(1_000_000), "n=1000000");
    assert_eq!(hex(0), "n=0x0");
}

#[test]
fn words_are_joined_as_the_standard_library_does() {
    let lists = [vec![], vec!["a"], vec!["", "b"], vec!["a", "b c", "", "d"]];
    for list in lists {
        let words: Vec<String> = list.iter().map(|word| String::from(*word)).collect();
        assert_eq!(join(&words, " "), words.join(" "));
    }
}

#[test]
fn ports_are_read_in_network_order() {
    assert_eq!(port_from_network(0x901f), 8080);
    assert_eq!(port_from_network(0x5000), 80);
    for port in [0u16, 1, 255, 256, 8080, u16::MAX] {
        assert_eq!(port_from_network(u16::from_le_bytes(port.to_be_bytes())), port);
        assert_eq!(port_from_network(port_from_network(port)), port);
    }
}
