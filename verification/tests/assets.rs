use status_pages::assets::{Asset, AssetStore};

fn asset(name: &str, bytes: &[u8]) -> Asset {
    Asset { identifier: name.to_string(), bytes: bytes.to_vec() }
}

#[test]
fn a_store_needs_an_asset() {
    assert!(AssetStore::new(Vec::new()).is_none());
}

#[test]
fn a_store_takes_each_name_once() {
    assert!(AssetStore::new(vec![asset("a", &[1]), asset("b", &[2]), asset("a", &[3])]).is_none());
    assert!(AssetStore::new(vec![asset("a", &[1]), asset("a", &[1])]).is_none());
    assert!(AssetStore::new(vec![asset("a", &[1]), asset("A", &[1])]).is_some());
}

#[test]
fn lookup_is_by_exact_name() {
    let store = AssetStore::new(vec![asset("img/a.png", &[1, 2]), asset("b", &[])]).unwrap();
    assert_eq!(store.len(), 2);
    assert_eq!(store.lookup("img/a.png"), Some(&vec![1, 2]));
    assert_eq!(store.lookup("b"), Some(&vec![]));
    assert_eq!(store.lookup("img/a.pn"), None);
    assert_eq!(store.lookup("img/a.png "), None);
    assert_eq!(store.lookup("IMG/A.PNG"), None);
    assert_eq!(store.lookup(""), None);
    assert_eq!(store.find("b"), Some(1));
    assert_eq!(store.find("c"), None);
    assert_eq!(store.identifier_at(0), "img/a.png");
    assert_eq!(store.bytes_at(0), &vec![1, 2]);
}

#[test]
fn random_place_is_a_place_and_reaches_each() {
    let store = AssetStore::new(vec![asset("a", &[1]), asset("b", &[2]), asset("c", &[3])]).unwrap();
    let mut seen = [false; 3];
    for _ in 0..2000 {
        let place = store.random_place();
        assert!(place < 3);
        seen[place] = true;
    }
    assert_eq!(seen, [true, true, true]);
}

#[test]
fn random_identifier_names_an_asset() {
    let store = AssetStore::new(vec![asset("a", &[1]), asset("b", &[2])]).unwrap();
    for _ in 0..100 {
        let name = store.random_identifier();
        assert!(name == "a" || name == "b");
    }
    let single = AssetStore::new(vec![asset("only", &[])]).unwrap();
    assert_eq!(single.random_identifier(), "only");
    assert_eq!(single.random_place(), 0);
}
