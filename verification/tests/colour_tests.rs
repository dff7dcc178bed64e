use cinder::colour::Colour;

#[test]
fn from_hex_parses_channels() {
    let c = Colour::from_hex("1fd1b6");
    assert_eq!(c.r, 0x1f);
    assert_eq!(c.g, 0xd1);
    assert_eq!(c.b, 0xb6);
}

#[test]
fn from_hex_ignores_hash_marks() {
    let c = Colour::from_hex("#1fd1b6");
    assert_eq!(c, Colour { r: 0x1f, g: 0xd1, b: 0xb6 });
}

#[test]
fn from_hex_uppercase_digits() {
    let c = Colour::from_hex("FF00Aa");
    assert_eq!(c, Colour { r: 0xff, g: 0x00, b: 0xaa });
}

#[test]
fn try_from_hex_rejects_wrong_length() {
    assert_eq!(Colour::try_from_hex("bad"), None);
    assert_eq!(Colour::try_from_hex(""), None);
    assert_eq!(Colour::try_from_hex("1fd1b6a"), None);
}

#[test]
fn try_from_hex_rejects_bad_digit() {
    assert_eq!(Colour::try_from_hex("1fd1bg"), None);
    assert_eq!(Colour::try_from_hex("zzzzzz"), None);
}

#[test]
fn try_from_hex_accepts_valid() {
    assert_eq!(Colour::try_from_hex("#1fd1b6"), Some(Colour { r: 0x1f, g: 0xd1, b: 0xb6 }));
}

#[test]
fn bitwise_packs_channels() {
    let c = Colour::from_hex("1fd1b6");
    assert_eq!(c.bitwise(), 0x001fd1b6);
}

#[test]
fn bitwise_black_is_zero() {
    let c = Colour { r: 0, g: 0, b: 0 };
    assert_eq!(c.bitwise(), 0);
}

#[test]
fn bitwise_channel_positions() {
    assert_eq!(Colour { r: 1, g: 0, b: 0 }.bitwise(), 0x010000);
    assert_eq!(Colour { r: 0, g: 1, b: 0 }.bitwise(), 0x000100);
    assert_eq!(Colour { r: 0, g: 0, b: 1 }.bitwise(), 0x000001);
}
