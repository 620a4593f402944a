use std::collections::BTreeMap;

use rustquit::name_map::NameMap;

#[test]
fn a_map_agrees_with_std() {
    let names = ["", "a", "b", "ab", "B", "\u{e4}"];
    let mut seed: u32 = 5;
    let mut ours: NameMap<u64> = NameMap::new();
    let mut std: BTreeMap<String, u64> = BTreeMap::new();
    for step in 0..500 {
        seed = seed.wrapping_mul(1664525).wrapping_add(1013904223);
        let name = names[(seed >> 16) as usize % names.len()];
        if (seed >> 8) % 3 == 0 {
            ours.remove(name);
            std.remove(name);
        } else {
            ours.insert(name.to_string(), step);
            std.insert(name.to_string(), step);
        }
        assert_eq!(ours.len(), std.len());
        for name in names {
            assert_eq!(ours.get(name), std.get(name));
            assert_eq!(ours.contains_key(name), std.contains_key(name));
        }
        for (i, (key, value)) in std.iter().enumerate() {
            assert_eq!(ours.entry(i), (key.as_str(), value));
        }
        assert_eq!(ours.copy(), ours);
    }
}
