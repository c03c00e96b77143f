use powersoftau_core::utils::{blank_hash, hash_of};

fn hex(text: &str) -> Vec<u8> {
    let digits: Vec<u8> = text.bytes().map(|c| (c as char).to_digit(16).unwrap() as u8).collect();
    digits.chunks(2).map(|pair| pair[0] * 16 + pair[1]).collect()
}

#[test]
fn blank_hash_is_the_digest_of_a_zeroed_hash_field() {
    let expected = hex(
        "8715b7b58c747a49e371ba0b02b7de8f35da26ff2c8a60b80715d0272021266283af3eedb537683dd74cb1708601a80c9970376f1226d16afc242765eccd592a",
    );
    assert_eq!(blank_hash(), expected);
    assert_eq!(hash_of(&[0u8; 64]), expected);
}

#[test]
fn hash_of_matches_known_digests() {
    let empty = hex(
        "786a02f742015903c6c6fd852552d272912f4740e15847618a86e217f71f5419d25e1031afee585313896444934eb04b903a685b1448b755d56f701afe9be2ce",
    );
    assert_eq!(hash_of(&[]), empty);
    let hello = hex(
        "021ced8799296ceca557832ab941a50b4a11f83478cf141f51f933f653ab9fbcc05a037cddbed06e309bf334942c4e58cdf1a46e237911ccd7fcf9787cbc7fd0",
    );
    assert_eq!(hash_of(b"hello world"), hello);
    assert_eq!(hash_of(b"hello world").len(), 64);
}
