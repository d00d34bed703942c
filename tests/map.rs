use spx::io::SpxArchive;
use spx::map::LookupMap;
use spx::{FileInfo, FileMap};

const SALT: u64 = 12913932095322966823;

fn sample_map() -> FileMap {
    FileMap::from_maps(
        LookupMap {
            key: SALT,
            disps: vec![(1, 0)],
            values: vec![(1124799619, 12), (1613200686, 0)],
        },
        LookupMap {
            key: SALT,
            disps: vec![(0, 0)],
            values: vec![(3369492545, 4), (1370935553, 12)],
        },
    )
}

const ARCHIVE: [u8; 16] = [
    98, 230, 205, 129, 245, 38, 142, 205, 232, 219, 234, 162, 51, 194, 242, 194,
];

#[test]
fn stream_test() {
    let archive = ARCHIVE;
    let map = sample_map();

    {
        let mut stream = SpxArchive::new(&map, &archive).open("hello world.txt").unwrap();
        let output = String::from_utf8(stream.read_to_end()).unwrap();
        assert_eq!(output, "Hello world!");
    }

    {
        let mut stream = SpxArchive::new(&map, &archive).open("example").unwrap();
        let output = String::from_utf8(stream.read_to_end()).unwrap();
        assert_eq!(output, "asdf");
    }
}

#[test]
fn tests2() {
    let map = FileMap::from_maps(
        LookupMap {
            key: SALT,
            disps: vec![(1, 0)],
            values: vec![(2933750114, 454), (4177863687, 0), (3011276538, 1610), (1509948260, 4177)],
        },
        LookupMap {
            key: SALT,
            disps: vec![(1, 0)],
            values: vec![(2933750114, 1156), (4177863687, 454), (3011276538, 2567), (1509948260, 325)],
        },
    );

    println!("{:?}", map.get("Cargo.toml"))
}

#[test]
fn sample_map_entries() {
    let map = sample_map();
    assert_eq!(map.len(), 2);
    assert!(!map.is_empty());
    assert_eq!(
        map.get_entry("hello world.txt"),
        Some((6928644189625700609, FileInfo::new(0, 12)))
    );
    assert_eq!(map.get_entry("example"), Some((4830977581527752769, FileInfo::new(12, 4))));
    assert_eq!(map.get("missing"), None);
    assert_eq!(map.get("hello world.tx"), None);
    assert_eq!(map.get(""), None);
}

#[test]
fn sample_map_raw_slots() {
    let map = sample_map();
    let key = spx::map::OffsetKey("hello world.txt").to_bytes();
    assert_eq!(map.offsets.get_raw(&key), (1613200686, 0));
    let key = spx::map::SizeKey("example").to_bytes();
    assert_eq!(map.sizes.get_raw(&key), (3369492545, 4));
}

#[test]
fn empty_map_misses() {
    let map = FileMap::new();
    assert_eq!(map.len(), 0);
    assert!(map.is_empty());
    assert_eq!(map.get("hello world.txt"), None);
    assert_eq!(map.get_entry(""), None);
    let archive = ARCHIVE;
    assert_eq!(
        SpxArchive::new(&map, &archive).open("hello world.txt").err(),
        Some(spx::SpxError::NotFound)
    );
    assert_eq!(LookupMap::new(), LookupMap::default());
}

#[test]
fn key_forms() {
    assert_eq!(spx::map::SizeKey("a/b").to_bytes(), b"a/b:size".to_vec());
    assert_eq!(spx::map::OffsetKey("a/b").to_bytes(), b"a/b:offset".to_vec());
    assert_eq!(spx::map::OffsetKey("").to_bytes(), b":offset".to_vec());
}

#[test]
fn halves_split() {
    assert_eq!(spx::split(0x0102_0304_0506_0708), (0x0102_0304, 0x0506_0708));
    assert_eq!(spx::split(6928644189625700609), (1613200686, 1370935553));
}

#[test]
fn from_state_rejects_bad_tables() {
    let keys = vec![b"a".to_vec(), b"b".to_vec()];
    let vals = vec![(1u32, 10u64), (2u32, 20u64)];
    // slot map of the wrong length
    assert_eq!(LookupMap::from_state(&keys, 7, vec![(0, 0)], vec![0], &vals), None);
    // slot map pointing past the keys
    assert_eq!(LookupMap::from_state(&keys, 7, vec![(0, 0)], vec![0, 5], &vals), None);
    // no buckets for a non-empty key list
    assert_eq!(LookupMap::from_state(&keys, 7, vec![], vec![0, 1], &vals), None);
    // a slot map that names one key twice cannot place both
    assert_eq!(LookupMap::from_state(&keys, 7, vec![(0, 0)], vec![0, 0], &vals), None);
    // an empty key list gives an empty table
    let empty = LookupMap::from_state(&vec![], 7, vec![], vec![], &vec![]).unwrap();
    assert_eq!(empty.values.len(), 0);
}
