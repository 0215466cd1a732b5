use german_bstr::bytes::{bytes_eq, first_difference};
use german_bstr::order::cmp_bytes;
use german_bstr::GermanBStr;
use std::cmp::Ordering;
use std::collections::hash_map::DefaultHasher;
use std::hash::{Hash, Hasher};

fn samples() -> Vec<Vec<u8>> {
    let mut all: Vec<Vec<u8>> = vec![
        b"".to_vec(),
        b"\0".to_vec(),
        b"\0\0".to_vec(),
        b"\0\0\0\0".to_vec(),
        b"\0\0\0\0\0".to_vec(),
        b"a".to_vec(),
        b"a\0".to_vec(),
        b"a\0\0\0".to_vec(),
        b"a\0\x05".to_vec(),
        b"ab".to_vec(),
        b"abc".to_vec(),
        b"abcd".to_vec(),
        b"abce".to_vec(),
        b"abcde".to_vec(),
        b"abcdefghijkl".to_vec(),
        b"abcdefghijklm".to_vec(),
        b"abcdefghijkln".to_vec(),
        b"abcdefghijklmnopqrstuvwxyzABCD".to_vec(),
        b"abcdefghijklmnopqrstuvwxyzABCE".to_vec(),
        b"abcdefghijklmnopqrstuvwxyzABC".to_vec(),
        b"abcz".to_vec(),
        b"b".to_vec(),
        b"\xff".to_vec(),
        b"\xff\xff\xff\xff\xff\xff\xff\xff\xff\xff\xff\xff\xff\xff".to_vec(),
    ];
    all.push(vec![0u8; 13]);
    all.push(vec![0u8; 14]);
    all
}

fn hash_of(v: &GermanBStr) -> u64 {
    let mut state = DefaultHasher::new();
    v.hash(&mut state);
    state.finish()
}

#[test]
fn equality_is_equality_of_content() {
    let all = samples();
    for a in &all {
        for b in &all {
            let expected = a == b;
            assert_eq!(GermanBStr::new_borrowed(a) == GermanBStr::new_borrowed(b), expected);
            assert_eq!(GermanBStr::new_borrowed(a) == GermanBStr::new_owned(b), expected);
            assert_eq!(GermanBStr::new_owned(a) == GermanBStr::new_owned(b), expected);
            assert_eq!(GermanBStr::new_borrowed(a) != GermanBStr::new_owned(b), !expected);
            assert_eq!(bytes_eq(a, b), expected);
        }
    }
}

#[test]
fn equality_ignores_the_storage_class() {
    let buffer = b"abcdefghijklmnopqrstuvwxyzABCD".to_vec();
    let s = GermanBStr::new_static(b"abcdefghijklmnopqrstuvwxyzABCD");
    let b = GermanBStr::new_borrowed(&buffer);
    let o = GermanBStr::new_owned(&buffer);
    assert!(s == b);
    assert!(b == o);
    assert!(s == o);
    assert_eq!(s.variant_label(), "Static");
    assert_eq!(b.variant_label(), "Borrowed");
    assert_eq!(o.variant_label(), "Owned");
}

#[test]
fn order_is_the_lexicographic_order_of_the_content() {
    let all = samples();
    for a in &all {
        for b in &all {
            let expected = a.as_slice().cmp(b.as_slice());
            let x = GermanBStr::new_borrowed(a);
            let y = GermanBStr::new_owned(b);
            assert_eq!(x.cmp(&y), expected);
            assert_eq!(y.cmp(&x), expected.reverse());
            assert_eq!(x.partial_cmp(&y), Some(expected));
            assert_eq!(x < y, expected == Ordering::Less);
            assert_eq!(x <= y, expected != Ordering::Greater);
            assert_eq!(x > y, expected == Ordering::Greater);
            assert_eq!(x >= y, expected != Ordering::Less);
            assert_eq!(cmp_bytes(a, b), expected);
        }
    }
}

#[test]
fn order_of_chosen_values() {
    let v = |s: &'static [u8]| GermanBStr::new_static(s);
    assert_eq!(v(b"").cmp(&v(b"")), Ordering::Equal);
    assert_eq!(v(b"").cmp(&v(b"\0")), Ordering::Less);
    assert_eq!(v(b"a").cmp(&v(b"a\0")), Ordering::Less);
    assert_eq!(v(b"a\0\x05").cmp(&v(b"a")), Ordering::Greater);
    assert_eq!(v(b"abcd").cmp(&v(b"abce")), Ordering::Less);
    assert_eq!(v(b"abcdefghijklmnop").cmp(&v(b"abcdefghijklmnoq")), Ordering::Less);
    assert_eq!(v(b"abcdefghijklmnop").cmp(&v(b"abcdefghijkl")), Ordering::Greater);
    assert_eq!(v(b"b").cmp(&v(b"abcdefghijklmnop")), Ordering::Greater);
}

#[test]
fn order_is_transitive_on_samples() {
    let all = samples();
    for a in &all {
        for b in &all {
            for c in &all {
                let (x, y, z) = (
                    GermanBStr::new_borrowed(a),
                    GermanBStr::new_borrowed(b),
                    GermanBStr::new_borrowed(c),
                );
                if x.cmp(&y) != Ordering::Greater && y.cmp(&z) != Ordering::Greater {
                    assert_ne!(x.cmp(&z), Ordering::Greater);
                }
            }
        }
    }
}

#[test]
fn first_difference_of_slices() {
    assert_eq!(first_difference(b"", b""), 0);
    assert_eq!(first_difference(b"abc", b"abc"), 3);
    assert_eq!(first_difference(b"abc", b"abd"), 2);
    assert_eq!(first_difference(b"abc", b"ab"), 2);
    assert_eq!(first_difference(b"", b"ab"), 0);
    assert_eq!(first_difference(b"xbc", b"abc"), 0);
}

#[test]
fn equal_values_hash_equal() {
    let all = samples();
    for a in &all {
        let borrowed = GermanBStr::new_borrowed(a);
        let owned = GermanBStr::new_owned(a);
        assert_eq!(hash_of(&borrowed), hash_of(&owned));
        assert_eq!(hash_of(&borrowed), hash_of(&borrowed.clone()));
    }
    let s = GermanBStr::new_static(b"abcdefghijklmnopqrstuvwxyzABCD");
    let buffer = b"abcdefghijklmnopqrstuvwxyzABCD".to_vec();
    assert_eq!(hash_of(&s), hash_of(&GermanBStr::new_borrowed(&buffer)));
}

#[test]
fn hash_is_that_of_the_content() {
    let content: &[u8] = b"abcdefghijklmnopqrstuvwxyzABCD";
    let v = GermanBStr::new_static(b"abcdefghijklmnopqrstuvwxyzABCD");
    let mut expected = DefaultHasher::new();
    bstr::BStr::new(content).hash(&mut expected);
    assert_eq!(hash_of(&v), expected.finish());
    let mut as_slice = DefaultHasher::new();
    content.hash(&mut as_slice);
    assert_eq!(hash_of(&v), as_slice.finish());
    assert_ne!(hash_of(&v), DefaultHasher::new().finish());
    assert_ne!(hash_of(&v), hash_of(&GermanBStr::new_static(b"abcd")));

    let mut state = DefaultHasher::new();
    state.write(b"before");
    v.hash(&mut state);
    let mut same = DefaultHasher::new();
    same.write(b"before");
    content.hash(&mut same);
    assert_eq!(state.finish(), same.finish());
}
