use bloom_filter::BloomError;
use bloom_filter::BloomFilter;

use num_traits::cast::ToPrimitive;
use sha1::Digest;

fn expected_index(salt: &str, element: &str, i: u32, capacity: usize) -> usize {
    let input = format!("{}{}{}", salt, element, i);
    let mut hasher = sha1::Sha1::new();
    hasher.update(input.as_str());
    let digest = hex::encode(hasher.finalize());
    let value = num_bigint::BigInt::parse_bytes(digest.as_bytes(), 16).unwrap() % capacity;
    value.to_usize().unwrap()
}

fn estimate(f: &BloomFilter) -> f64 {
    let m = f.capacity() as f64;
    let k = f.hash_count() as f64;
    -(m / k) * (1.0_f64 - f.count_ones() as f64 / m).ln()
}

#[test]
fn new_rejects_zero_capacity() {
    assert_eq!(
        BloomFilter::new(0, 2).err(),
        Some(BloomError::InvalidConfiguration)
    );
}

#[test]
fn new_rejects_nonpositive_hash_count() {
    assert_eq!(
        BloomFilter::new(20, 0).err(),
        Some(BloomError::InvalidConfiguration)
    );
    assert_eq!(
        BloomFilter::new_with_salt(20, -3, "x").err(),
        Some(BloomError::InvalidConfiguration)
    );
}

#[test]
fn new_filter_is_all_zero() {
    let f = BloomFilter::new_with_salt(20, 2, "pepper").unwrap();
    assert_eq!(f.capacity(), 20);
    assert_eq!(f.hash_count(), 2);
    assert_eq!(f.salt(), "pepper");
    assert_eq!(f.count_ones(), 0);
    assert!(f.bits().iter().all(|b| !b));
}

#[test]
fn new_has_empty_salt() {
    let f = BloomFilter::new(5, 1).unwrap();
    assert_eq!(f.salt(), "");
}

// The positions below were computed independently of the library, from the
// SHA-1 digests of "abc0", "abc1", "abc2" reduced modulo 7. A digest wrapper
// that returned anything but the real lowercase hex digest would place the
// bits elsewhere.
#[test]
fn add_sets_exactly_the_derived_bits() {
    let mut f = BloomFilter::new(7, 3).unwrap();
    f.add("abc");
    let expected = vec![false, false, true, true, false, false, true];
    assert_eq!(f.bits(), &expected);
}

#[test]
fn salt_moves_the_derived_bits() {
    let mut f = BloomFilter::new_with_salt(7, 3, "pepper").unwrap();
    f.add("abc");
    // all three slots of "abc" collide on position 3 under this salt
    let expected = vec![false, false, false, true, false, false, false];
    assert_eq!(f.bits(), &expected);
    assert_eq!(f.count_ones(), 1);
}

#[test]
fn index_derivation_matches_the_digest_pipeline() {
    let mut f = BloomFilter::new_with_salt(97, 1, "s").unwrap();
    f.add("hello");
    let idx = expected_index("s", "hello", 0, 97);
    assert_eq!(idx, 48);
    assert!(f.bits()[idx]);
    assert_eq!(f.count_ones(), 1);
}

#[test]
fn added_elements_are_always_found() {
    let mut f = BloomFilter::new_with_salt(50, 3, "salty").unwrap();
    let elements = ["", "a", "ab", "Iced Coffee", "Mocha", "a longer element"];
    for e in elements.iter() {
        f.add(e);
        assert!(f.lookup(e));
    }
    for e in elements.iter() {
        assert!(f.lookup(e));
    }
}

#[test]
fn lookup_never_shrinks_as_elements_are_added() {
    let mut f = BloomFilter::new(30, 2).unwrap();
    f.add("first");
    f.add("second");
    let probes = ["first", "second", "third", "fourth", "fifth"];
    let before: Vec<bool> = probes.iter().map(|e| f.lookup(e)).collect();
    f.add("third");
    f.add("fourth");
    let after: Vec<bool> = probes.iter().map(|e| f.lookup(e)).collect();
    for (b, a) in before.iter().zip(after.iter()) {
        assert!(!b || *a);
    }
}

#[test]
fn identical_filters_evolve_identically() {
    let mut a = BloomFilter::new_with_salt(20, 2, "salty").unwrap();
    let mut b = BloomFilter::new_with_salt(20, 2, "salty").unwrap();
    for e in ["x", "y", "z", "x"].iter() {
        a.add(e);
        b.add(e);
    }
    assert_eq!(a.bits(), b.bits());
    for e in ["x", "y", "w", ""].iter() {
        assert_eq!(a.lookup(e), b.lookup(e));
    }
}

#[test]
fn union_contains_what_either_operand_contains() {
    let firsts = ["Iced Coffee", "Espresso", "Flat White", "Mocha"];
    let seconds = ["Iced Espresso", "Frappuccino", "Latte"];
    let mut a = BloomFilter::new(20, 2).unwrap();
    for e in firsts.iter() {
        a.add(e);
    }
    let mut b = BloomFilter::new(20, 2).unwrap();
    for e in seconds.iter() {
        b.add(e);
    }
    let u = a.union(b.clone()).unwrap();
    assert_eq!(u.capacity(), 20);
    assert_eq!(u.hash_count(), 2);
    assert_eq!(u.salt(), "");
    for e in firsts.iter().chain(seconds.iter()) {
        assert!(u.lookup(e));
    }
    // the operand that union borrows is unchanged
    let mut fresh = BloomFilter::new(20, 2).unwrap();
    for e in firsts.iter() {
        fresh.add(e);
    }
    assert_eq!(a.bits(), fresh.bits());
}

#[test]
fn union_bits_are_the_pointwise_or() {
    let mut a = BloomFilter::new(9, 1).unwrap();
    a.add("p");
    a.add("q");
    let mut b = BloomFilter::new(9, 1).unwrap();
    b.add("r");
    let u = a.union(b.clone()).unwrap();
    for j in 0..9 {
        assert_eq!(u.bits()[j], a.bits()[j] || b.bits()[j]);
    }
}

#[test]
fn intersection_bits_are_set_in_both_operands() {
    let mut a = BloomFilter::new(20, 2).unwrap();
    for e in ["Iced Espresso", "Flat White", "Cappuccino", "Frappuccino", "Latte"].iter() {
        a.add(e);
    }
    let mut b = BloomFilter::new(20, 2).unwrap();
    for e in ["Iced Coffee", "Espresso", "Flat White", "Cappuccino", "Mocha"].iter() {
        b.add(e);
    }
    let both = a.intersection(b.clone()).unwrap();
    assert_eq!(both.salt(), "");
    for j in 0..20 {
        assert_eq!(both.bits()[j], a.bits()[j] && b.bits()[j]);
        if both.bits()[j] {
            assert!(a.bits()[j] && b.bits()[j]);
        }
    }
    // elements in both operands are still reported present
    assert!(both.lookup("Flat White"));
    assert!(both.lookup("Cappuccino"));
}

#[test]
fn mismatched_shapes_are_rejected() {
    let a = BloomFilter::new(20, 2).unwrap();
    let wider = BloomFilter::new(21, 2).unwrap();
    let deeper = BloomFilter::new(20, 3).unwrap();
    assert_eq!(a.union(wider.clone()).err(), Some(BloomError::ShapeMismatch));
    assert_eq!(a.union(deeper.clone()).err(), Some(BloomError::ShapeMismatch));
    assert_eq!(
        a.intersection(wider).err(),
        Some(BloomError::ShapeMismatch)
    );
    assert_eq!(
        a.intersection(deeper).err(),
        Some(BloomError::ShapeMismatch)
    );
}

#[test]
fn empty_filter_estimates_zero() {
    let f = BloomFilter::new(20, 2).unwrap();
    assert_eq!(f.count_ones(), 0);
    assert_eq!(estimate(&f), 0.0);
}

#[test]
fn saturated_filter_estimate_is_degenerate_not_a_crash() {
    let mut f = BloomFilter::new(20, 2).unwrap();
    let mut n = 0;
    while f.count_ones() < f.capacity() {
        f.add(&format!("element{}", n));
        n += 1;
        assert!(n < 10_000);
    }
    assert_eq!(f.count_ones(), 20);
    let e = estimate(&f);
    assert!(e.is_infinite() && e > 0.0);
}

#[test]
fn coffee_scenario() {
    let coffees = [
        "Iced Coffee",
        "Iced Coffee with Milk",
        "Espresso",
        "Espresso Macchiato",
        "Flat White",
        "Latte Macchiato",
        "Cappuccino",
        "Mocha",
    ];
    let mut f = BloomFilter::new_with_salt(20, 2, "").unwrap();
    for e in coffees.iter() {
        f.add(e);
    }
    // computed independently of the library from the SHA-1 digests
    let expected = vec![
        true, false, false, false, false, false, true, false, true, true, false, true, true,
        false, true, true, true, true, true, false,
    ];
    assert_eq!(f.bits(), &expected);
    assert_eq!(f.count_ones(), 11);
    assert!(f.lookup("Flat White"));
    let first = f.lookup("Americano");
    let second = f.lookup("Americano");
    assert_eq!(first, second);
}

#[test]
fn clone_is_an_exact_copy() {
    let mut f = BloomFilter::new_with_salt(15, 2, "s").unwrap();
    f.add("one");
    f.add("two");
    let g = f.clone();
    assert_eq!(f.bits(), g.bits());
    assert_eq!(f.capacity(), g.capacity());
    assert_eq!(f.hash_count(), g.hash_count());
    assert_eq!(f.salt(), g.salt());
    assert_eq!(f.lookup("one"), g.lookup("one"));
    assert_eq!(f.lookup("three"), g.lookup("three"));
}

#[test]
fn empty_element_is_valid() {
    let mut f = BloomFilter::new(5, 2).unwrap();
    f.add("");
    assert!(f.lookup(""));
}
