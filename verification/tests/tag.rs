use gixkit::hash::{is_sha1_hex_digest, ObjectId};
use gixkit::tag::{Kind, Sign, Signature, SignatureRef, Tag, TagRef, Time};

const HEX: &[u8] = b"ffa700b4aca13b80cb6b98a078e7c96804f8e0ec";

fn digest() -> Vec<u8> {
    vec![
        0xff, 0xa7, 0x00, 0xb4, 0xac, 0xa1, 0x3b, 0x80, 0xcb, 0x6b, 0x98, 0xa0, 0x78, 0xe7, 0xc9,
        0x68, 0x04, 0xf8, 0xe0, 0xec,
    ]
}

fn tag(target: &[u8]) -> TagRef<'_> {
    TagRef {
        target,
        target_kind: Kind::Commit,
        name: b"v1.0",
        tagger: Some(SignatureRef {
            name: b"A U Thor",
            email: b"author@example.com",
            time: Time { seconds: 1592381636, offset: 28800, sign: Sign::Plus },
        }),
        message: b"a release\n",
        pgp_signature: None,
    }
}

#[test]
fn the_target_is_decoded_from_its_hexadecimal_digits() {
    let tag = tag(HEX);
    assert!(tag.is_well_formed());
    assert_eq!(tag.target(), ObjectId { bytes: digest() });
}

#[test]
fn digits_count_in_either_case() {
    let upper = HEX.to_ascii_uppercase();
    let tag = tag(&upper);
    assert!(tag.is_well_formed());
    assert_eq!(tag.target().bytes, digest());
    assert_eq!(ObjectId::from_hex(b"00000000000000000000000000000000000000Ff").unwrap().bytes[19], 255);
}

#[test]
fn a_target_must_be_forty_hexadecimal_digits() {
    assert!(!tag(b"").is_well_formed());
    assert!(!tag(&HEX[..39]).is_well_formed());
    assert!(!tag(b"ffa700b4aca13b80cb6b98a078e7c96804f8e0ecf").is_well_formed());
    assert!(!tag(b"gfa700b4aca13b80cb6b98a078e7c96804f8e0ec").is_well_formed());
    assert!(!tag(b"ffa700b4aca13b80cb6b98a078e7c96804f8e0e ").is_well_formed());
    assert_eq!(ObjectId::from_hex(b""), None);
    assert_eq!(ObjectId::from_hex(&HEX[..39]), None);
    assert_eq!(ObjectId::from_hex(b"ffa700b4aca13b80cb6b98a078e7c96804f8e0ecf"), None);
    assert_eq!(ObjectId::from_hex(b"gfa700b4aca13b80cb6b98a078e7c96804f8e0ec"), None);
    assert_eq!(ObjectId::from_hex(b"ffa700b4aca13b80cb6b98a078e7c96804f8e0e/"), None);
    assert_eq!(ObjectId::from_hex(b"ffa700b4aca13b80cb6b98a078e7c96804f8e0e:"), None);
    assert_eq!(ObjectId::from_hex(b"ffa700b4aca13b80cb6b98a078e7c96804f8e0e`"), None);
    assert_eq!(ObjectId::from_hex(b"ffa700b4aca13b80cb6b98a078e7c96804f8e0e@"), None);
    assert_eq!(ObjectId::from_hex(b"ffa700b4aca13b80cb6b98a078e7c96804f8e0eG"), None);
}

#[test]
fn the_check_agrees_with_the_decoder() {
    for candidate in [&HEX[..], &HEX[..38], b"ffa700b4aca13b80cb6b98a078e7c96804f8e0eg", b"FFA700B4ACA13B80CB6B98A078E7C96804F8E0EC"] {
        assert_eq!(is_sha1_hex_digest(candidate), ObjectId::from_hex(candidate).is_some());
    }
}

#[test]
fn an_owned_tag_holds_the_same_data() {
    let mut borrowed = tag(HEX);
    borrowed.pgp_signature = Some(b"-----BEGIN PGP SIGNATURE-----\n-----END PGP SIGNATURE-----\n");
    assert_eq!(
        borrowed.into_owned(),
        Tag {
            target: ObjectId { bytes: digest() },
            target_kind: Kind::Commit,
            name: b"v1.0".to_vec(),
            tagger: Some(Signature {
                name: b"A U Thor".to_vec(),
                email: b"author@example.com".to_vec(),
                time: Time { seconds: 1592381636, offset: 28800, sign: Sign::Plus },
            }),
            message: b"a release\n".to_vec(),
            pgp_signature: Some(b"-----BEGIN PGP SIGNATURE-----\n-----END PGP SIGNATURE-----\n".to_vec()),
        }
    );
    let mut plain = tag(HEX);
    plain.tagger = None;
    plain.target_kind = Kind::Tree;
    let owned = plain.into_owned();
    assert_eq!(owned.tagger, None);
    assert_eq!(owned.pgp_signature, None);
    assert_eq!(owned.target_kind, Kind::Tree);
}

#[test]
fn identifiers_compare_by_their_bytes() {
    let a = ObjectId::from_bytes(&digest());
    let b = ObjectId::from_hex(HEX).unwrap();
    assert!(a.same_as(&b));
    assert_eq!(a.as_slice(), &digest()[..]);
    assert_eq!(a.duplicate(), b);
    assert!(!a.same_as(&ObjectId::from_bytes(&digest()[..19])));
    assert!(!a.same_as(&ObjectId { bytes: vec![0; 20] }));
}
