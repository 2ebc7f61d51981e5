use border_wars::model::{EventBuild, Race};
use border_wars::packet::{packet_id_of_name, HandlerManager, Packet};
use border_wars::wire::{collect_packets, encode_frame, frame_length, read_frame, split_packet, tag_packet};

#[test]
fn trame_avec_longueur() {
    let f = encode_frame(&vec![7, 8, 9]);
    assert_eq!(f, vec![0, 0, 0, 3, 7, 8, 9]);
    assert_eq!(frame_length(&f[0..4]), 3);
    let big = vec![1u8; 300];
    let g = encode_frame(&big);
    assert_eq!(&g[0..4], &[0, 0, 1, 44]);
}

#[test]
fn lecture_des_trames() {
    let mut stream = encode_frame(&vec![1, 2]);
    stream.extend(encode_frame(&vec![]));
    stream.extend(encode_frame(&vec![5]));
    let (a, n) = read_frame(&stream).unwrap();
    assert_eq!(a, vec![1, 2]);
    assert_eq!(n, 6);
    let (b, m) = read_frame(&stream[n..]).unwrap();
    assert_eq!(b, Vec::<u8>::new());
    assert_eq!(m, 4);
    let (c, k) = read_frame(&stream[n + m..]).unwrap();
    assert_eq!(c, vec![5]);
    assert_eq!(k, 5);
    assert_eq!(read_frame(&stream[n + m + k..]), None);
}

#[test]
fn trame_incomplete() {
    assert_eq!(read_frame(&[0, 0, 0]), None);
    assert_eq!(read_frame(&[0, 0, 0, 2, 9]), None);
}

#[test]
fn etiquette_de_paquet() {
    let p = tag_packet(vec![42], 0x0102030405060708);
    assert_eq!(p, vec![42, 1, 2, 3, 4, 5, 6, 7, 8]);
    assert_eq!(split_packet(p), Some((0x0102030405060708, vec![42])));
    assert_eq!(split_packet(vec![1, 2, 3]), None);
    assert_eq!(split_packet(vec![0, 0, 0, 0, 0, 0, 0, 9]), Some((9, vec![])));
}

#[test]
fn paquets_recus() {
    let got = collect_packets(vec![tag_packet(vec![1], 5), vec![1, 2], tag_packet(vec![], 7)]);
    assert_eq!(got, vec![(5, vec![1]), (7, vec![])]);
}

#[test]
fn identifiant_des_paquets() {
    let a = EventBuild::packet_id();
    assert_eq!(a, EventBuild::packet_id());
    assert_eq!(a, packet_id_of_name("border_wars::model::EventBuild"));
    assert_ne!(a, Race::packet_id());
    assert_eq!(<Race as Packet>::packet_name(), "border_wars::model::Race");
}

#[test]
fn table_des_gestionnaires() {
    let mut t: HandlerManager<&str> = HandlerManager::new();
    assert_eq!(t.get(3), None);
    t.insert(3, "trois");
    t.insert(4, "quatre");
    t.insert(3, "tres");
    assert_eq!(t.get(3), Some(&"tres"));
    assert_eq!(t.get(4), Some(&"quatre"));
    assert_eq!(t.get(5), None);
}

#[test]
fn identifiant_egal_au_hachage_du_nom() {
    let mut h = std::collections::hash_map::DefaultHasher::new();
    std::hash::Hash::hash("border_wars::model::Tour", &mut h);
    assert_eq!(packet_id_of_name("border_wars::model::Tour"), std::hash::Hasher::finish(&h));
    let vide = std::hash::Hasher::finish(&std::collections::hash_map::DefaultHasher::new());
    assert_ne!(packet_id_of_name("border_wars::model::Tour"), vide);
}
