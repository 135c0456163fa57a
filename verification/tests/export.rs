use std::collections::BTreeMap;

use oui::{AddressBlock, OuiDatabase, OuiEntry, OuiError};

fn text_bytes(text: &str) -> Vec<u8> {
    let mut bytes = (text.len() as u64).to_le_bytes().to_vec();
    bytes.extend_from_slice(text.as_bytes());
    bytes
}

fn entry_bytes(lo: u64, hi: u64, short: &str, long: Option<&str>, comment: Option<&str>) -> Vec<u8> {
    let mut bytes = lo.to_le_bytes().to_vec();
    bytes.extend_from_slice(&hi.to_le_bytes());
    bytes.extend(text_bytes(short));
    for text in [long, comment] {
        match text {
            Some(text) => {
                bytes.push(1);
                bytes.extend(text_bytes(text));
            }
            None => bytes.push(0),
        }
    }
    bytes
}

#[test]
fn export_is_the_bincode_of_the_ordered_map() {
    let db = OuiDatabase::new_from_file(
        "00:50:C2:00:10:00/36\tChild\n00:00:18\tFoo\tFoo, Inc.\tnote\n00:50:C2\tParent\tIEEE",
    )
    .unwrap();
    let mut expected = 3u64.to_le_bytes().to_vec();
    expected.extend(entry_bytes(
        0x0000_1800_0000,
        0x0000_18FF_FFFF,
        "Foo",
        Some("Foo, Inc."),
        Some("note"),
    ));
    expected.extend(entry_bytes(0x0050_C200_0000, 0x0050_C2FF_FFFF, "Parent", Some("IEEE"), None));
    expected.extend(entry_bytes(0x0050_C200_1000, 0x0050_C200_1FFF, "Child", None, None));
    assert_eq!(db.export(), Ok(expected));
}

#[test]
fn export_of_nothing_is_a_count_of_zero() {
    let db = OuiDatabase::new_from_file("# nothing\n").unwrap();
    assert_eq!(db.export(), Ok(vec![0u8; 8]));
    let again = OuiDatabase::new_from_export(&[0u8; 8]).unwrap();
    assert!(again.is_empty());
}

#[test]
fn import_reads_what_bincode_wrote() {
    let mut bytes = 2u64.to_le_bytes().to_vec();
    bytes.extend(entry_bytes(0x0000_1800_0000, 0x0000_18FF_FFFF, "Foo", None, Some("c")));
    bytes.extend(entry_bytes(0x0000_1900_0000, 0x0000_19FF_FFFF, "Bär", Some("Bär AG"), None));
    let db = OuiDatabase::new_from_export(&bytes).unwrap();
    assert_eq!(db.len(), 2);
    assert_eq!(
        db.query(&0x0000_1800_0001),
        Ok(Some(OuiEntry {
            name_short: "Foo".to_string(),
            name_long: None,
            comment: Some("c".to_string())
        }))
    );
    assert_eq!(
        db.query(&0x0000_19FF_FFFF),
        Ok(Some(OuiEntry {
            name_short: "Bär".to_string(),
            name_long: Some("Bär AG".to_string()),
            comment: None
        }))
    );
    assert_eq!(db.query(&0x0000_1A00_0000), Ok(None));
    assert_eq!(db.export(), Ok(bytes));
}

#[test]
fn import_refuses_what_does_not_decode() {
    assert_eq!(OuiDatabase::new_from_export(&[]).err(), Some(OuiError::Decode));
    assert_eq!(OuiDatabase::new_from_export(&[1, 2, 3]).err(), Some(OuiError::Decode));
    assert_eq!(
        OuiDatabase::new_from_export(&1u64.to_le_bytes()).err(),
        Some(OuiError::Decode)
    );
    let mut bytes = 1u64.to_le_bytes().to_vec();
    bytes.extend(entry_bytes(0, 0xFF, "Foo", None, None));
    bytes.pop();
    assert_eq!(OuiDatabase::new_from_export(&bytes).err(), Some(OuiError::Decode));
    let mut bytes = 1u64.to_le_bytes().to_vec();
    bytes.extend_from_slice(&0u64.to_le_bytes());
    bytes.extend_from_slice(&0xFFu64.to_le_bytes());
    bytes.extend_from_slice(&2u64.to_le_bytes());
    bytes.extend_from_slice(&[0xC3, 0x28, 0, 0]);
    assert_eq!(OuiDatabase::new_from_export(&bytes).err(), Some(OuiError::Decode));
}

#[test]
fn round_trip_keeps_every_answer() {
    let text = "0A:00:00:00:00:00/8\tA\n0A:00:00\tB\n0A:00:00:00:00:00/36\tC\n\
                00:50:C2\tParent\tIEEE Registration Authority\n\
                00:50:C2:00:10:00/36\tChild\tChild Ltd\tsub-block\n\
                FF\tX\n01:23:45:67:89:AB/48\tOne\n";
    let db = OuiDatabase::new_from_file(text).unwrap();
    let again = OuiDatabase::new_from_export(&db.export().unwrap()).unwrap();
    assert_eq!(again.len(), db.len());
    assert_eq!(again.len(), 7);
    let probes: [u64; 12] = [
        0x0A00_0000_0000,
        0x0A00_0000_0FFF,
        0x0A00_0000_1000,
        0x0A00_0100_0000,
        0x0050_C200_0000,
        0x0050_C200_1000,
        0x0050_C200_1FFF,
        0x0050_C200_2000,
        0x0123_4567_89AB,
        0x0000_FF00_0000,
        0xFFFF_FFFF_FFFF,
        u64::MAX,
    ];
    for probe in probes {
        assert_eq!(again.query(&probe), db.query(&probe));
    }
    assert_eq!(db.query(&0x0A00_0000_0000), Err(OuiError::IndexInconsistent));
    assert_eq!(db.query(&0x0A00_0000_1000).unwrap().unwrap().name_short, "B");
    assert_eq!(db.query(&0x0A00_0100_0000).unwrap().unwrap().name_short, "A");
    assert_eq!(db.query(&0x0050_C200_1000).unwrap().unwrap().name_short, "Child");
}

#[test]
fn build_keeps_the_later_of_two_records_for_a_block() {
    let block = AddressBlock { lo: 0x0000_1800_0000, hi: 0x0000_18FF_FFFF, prefix_len: 24 };
    let other = AddressBlock { lo: 0x0000_1900_0000, hi: 0x0000_19FF_FFFF, prefix_len: 24 };
    let named = |short: &str| OuiEntry { name_short: short.to_string(), name_long: None, comment: None };
    let db = OuiDatabase::build(&[(block, named("Old")), (other, named("Other")), (block, named("New"))]);
    assert_eq!(db.len(), 2);
    assert_eq!(db.query(&0x0000_1800_0000), Ok(Some(named("New"))));
    assert_eq!(db.query(&0x0000_1900_0000), Ok(Some(named("Other"))));
    assert!(OuiDatabase::build(&[]).is_empty());
    assert!(OuiDatabase::empty().is_empty());
    assert_eq!(OuiDatabase::empty().len(), 0);
}

#[test]
fn entries_come_in_the_order_of_their_blocks() {
    let db = OuiDatabase::new_from_file(
        "00:50:C2:00:10:00/36\tChild\n00:50:C2\tParent\n00:00:18\tFoo\n00:50:C2:00:00:00/36\tFirst\n",
    )
    .unwrap();
    let listed: Vec<((u64, u64), String)> =
        db.entries().iter().map(|(key, entry)| (*key, entry.name_short.clone())).collect();
    assert_eq!(
        listed,
        vec![
            ((0x0000_1800_0000, 0x0000_18FF_FFFF), "Foo".to_string()),
            ((0x0050_C200_0000, 0x0050_C200_0FFF), "First".to_string()),
            ((0x0050_C200_0000, 0x0050_C2FF_FFFF), "Parent".to_string()),
            ((0x0050_C200_1000, 0x0050_C200_1FFF), "Child".to_string()),
        ]
    );
}

#[test]
fn database_of_given_entries_answers_by_them() {
    let named = |short: &str| OuiEntry { name_short: short.to_string(), name_long: None, comment: None };
    let mut entries = BTreeMap::new();
    entries.insert((10u64, 20u64), named("wide"));
    entries.insert((10u64, 12u64), named("narrow"));
    entries.insert((30u64, 30u64), named("single"));
    let db = OuiDatabase::from_entries(entries.clone());
    assert_eq!(db.len(), 3);
    assert_eq!(db.entries(), &entries);
    assert_eq!(db.query(&9), Ok(None));
    assert_eq!(db.query(&10), Ok(Some(named("narrow"))));
    assert_eq!(db.query(&12), Ok(Some(named("narrow"))));
    assert_eq!(db.query(&13), Ok(Some(named("wide"))));
    assert_eq!(db.query(&20), Ok(Some(named("wide"))));
    assert_eq!(db.query(&21), Ok(None));
    assert_eq!(db.query(&30), Ok(Some(named("single"))));

    entries.insert((11u64, 40u64), named("late"));
    let db = OuiDatabase::from_entries(entries);
    assert_eq!(db.query(&11), Err(OuiError::IndexInconsistent));
    assert_eq!(db.query(&10), Ok(Some(named("narrow"))));
    assert_eq!(db.query(&15), Ok(Some(named("late"))));
    assert_eq!(db.query(&30), Ok(Some(named("single"))));
    assert_eq!(db.query(&40), Ok(Some(named("late"))));
}

#[test]
fn export_succeeds_on_every_database() {
    let named = |short: &str| OuiEntry { name_short: short.to_string(), name_long: None, comment: None };
    let mut entries = BTreeMap::new();
    entries.insert((u64::MAX, 0u64), named(""));
    entries.insert((0u64, u64::MAX), OuiEntry::default());
    entries.insert((7u64, 7u64), named("Zürich ☃"));
    let databases = [
        OuiDatabase::empty(),
        OuiDatabase::new_from_file("00:00:18\tFoo\tFoo, Inc.\tnote\n").unwrap(),
        OuiDatabase::from_entries(entries),
    ];
    for db in databases {
        let before = db.len();
        let bytes = db.export();
        assert!(bytes.is_ok());
        assert_eq!(db.len(), before);
        let again = OuiDatabase::new_from_export(&bytes.unwrap()).unwrap();
        assert_eq!(again.entries(), db.entries());
    }
}
