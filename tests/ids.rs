use torrent_core::ids::{IdError, InfoHash, PeerId};

#[test]
fn hash_requires_twenty_bytes() {
    let h = torrent_core::ids::Hash::new((1u8..=20).collect()).unwrap();
    assert_eq!(h.to_vec(), (1u8..=20).collect::<Vec<u8>>());
    let arr = h.to_arr();
    assert_eq!(arr[0], 1);
    assert_eq!(arr[19], 20);
    assert_eq!(torrent_core::ids::Hash::new(vec![0; 19]).err(), Some(IdError::BadLength(19)));
    assert_eq!(torrent_core::ids::Hash::new(vec![]).err(), Some(IdError::BadLength(0)));
}

#[test]
fn info_hash_requires_twenty_bytes() {
    let h = InfoHash::new(vec![7; 20]).unwrap();
    assert_eq!(h.to_arr(), [7; 20]);
    assert_eq!(InfoHash::new(vec![7; 21]).err(), Some(IdError::BadLength(21)));
}

#[test]
fn generated_peer_id_shape() {
    let id = PeerId::generate();
    let bytes = id.to_vec();
    assert_eq!(bytes.len(), 20);
    assert_eq!(&bytes[..8], b"-PVR001-");
    assert!(bytes[8..].iter().all(|b| b.is_ascii_lowercase()));
    assert_eq!(id.to_arr().to_vec(), bytes);
}

#[test]
fn peer_id_from_bytes() {
    let id = PeerId::from_bytes(b"-PVR001-aaaaaaaaaaaa".to_vec()).unwrap();
    assert_eq!(&id.to_arr(), b"-PVR001-aaaaaaaaaaaa");
    assert_eq!(PeerId::from_bytes(vec![1, 2]).err(), Some(IdError::BadLength(2)));
}
