use raxis::ids::{combine_id, hash, id_from_location};
use std::collections::hash_map::DefaultHasher;
use std::hash::{Hash, Hasher};

fn fnv1a(parts: &[&[u8]]) -> u64 {
    let mut h: u64 = 0xcbf29ce484222325;
    for part in parts {
        for b in part.iter() {
            h ^= *b as u64;
            h = h.wrapping_mul(0x00000100000001B3);
        }
    }
    h
}

#[test]
fn location_hash_is_fnv1a_over_the_location() {
    let expected = {
        let mut h = fnv1a(&[b"app::view", b"src/main.rs"]);
        h ^= 12;
        h = h.wrapping_mul(0x00000100000001B3);
        h ^= 34;
        h.wrapping_mul(0x00000100000001B3)
    };
    assert_eq!(hash("app::view", "src/main.rs", 12, 34), expected);
}

#[test]
fn location_hash_of_empty_strings() {
    let mut h: u64 = 0xcbf29ce484222325;
    h = (h ^ 0).wrapping_mul(0x00000100000001B3);
    h = (h ^ 0).wrapping_mul(0x00000100000001B3);
    assert_eq!(hash("", "", 0, 0), h);
}

#[test]
fn location_hash_distinguishes_lines() {
    assert_ne!(hash("m", "f.rs", 1, 1), hash("m", "f.rs", 2, 1));
}

#[test]
fn id_from_location_uses_the_mod_prefix() {
    assert_eq!(id_from_location("src/lib.rs", 7, 9), hash("mod", "src/lib.rs", 7, 9));
}

fn std_combine(id: u64, child: impl Hash) -> u64 {
    let mut s = DefaultHasher::new();
    s.write_u64(id);
    child.hash(&mut s);
    s.finish()
}

#[test]
fn combine_id_with_str_matches_std_hash() {
    assert_eq!(combine_id(42, "label"), std_combine(42, "label"));
    assert_eq!(combine_id(0, ""), std_combine(0, ""));
}

#[test]
fn combine_id_with_integers_matches_std_hash() {
    assert_eq!(combine_id(42, 7u64), std_combine(42, 7u64));
    assert_eq!(combine_id(42, 7usize), std_combine(42, 7usize));
    assert_eq!(combine_id(u64::MAX, 0xdead_beefu32), std_combine(u64::MAX, 0xdead_beefu32));
}

#[test]
fn combine_id_depends_on_the_child() {
    assert_ne!(combine_id(1, 1u64), combine_id(1, 2u64));
    assert_ne!(combine_id(1, "a"), combine_id(2, "a"));
}
