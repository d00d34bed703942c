use spx::builder::SpxBuilder;
use spx::crypto::{cipher_for_path, create_cipher, SpxCipherWriter};
use spx::io::{SeekPos, SpxArchive};
use spx::{FileInfo, FileMap, SpxError};

const HELLO_ARCHIVE: [u8; 16] = [
    98, 230, 205, 129, 245, 38, 142, 205, 232, 219, 234, 162, 51, 194, 242, 194,
];

fn write_entry(builder: &mut SpxBuilder, name: &str, data: &[u8]) -> FileInfo {
    let mut entry = builder.start_file(name.to_string()).unwrap();
    let mut rest = data;
    while !rest.is_empty() {
        let n = entry.write(rest);
        assert!(n > 0);
        rest = &rest[n..];
    }
    entry.finish()
}

fn build_sample() -> (FileMap, Vec<u8>) {
    let mut builder = SpxBuilder::new();
    write_entry(&mut builder, "hello world.txt", b"Hello world!");
    write_entry(&mut builder, "example", b"asdf");
    let map = builder.build().unwrap();
    (map, builder.into_inner())
}

fn read_path(map: &FileMap, archive: &[u8], path: &str) -> Result<Vec<u8>, SpxError> {
    let mut stream = SpxArchive::new(map, archive).open(path)?;
    Ok(stream.read_to_end())
}

#[test]
fn scenario_two_entries_round_trip() {
    let (map, archive) = build_sample();
    assert_eq!(read_path(&map, &archive, "hello world.txt").unwrap(), b"Hello world!".to_vec());
    assert_eq!(read_path(&map, &archive, "example").unwrap(), b"asdf".to_vec());
    assert_eq!(read_path(&map, &archive, "missing"), Err(SpxError::NotFound));
}

#[test]
fn built_archive_matches_known_bytes() {
    let (map, archive) = build_sample();
    assert_eq!(archive, HELLO_ARCHIVE.to_vec());
    assert_eq!(map.get("hello world.txt"), Some(FileInfo::new(0, 12)));
    assert_eq!(map.get("example"), Some(FileInfo::new(12, 4)));
    assert_eq!(map.len(), 2);
}

#[test]
fn scenario_single_entry_seek() {
    let mut builder = SpxBuilder::new();
    let info = write_entry(&mut builder, "hello world.txt", b"Hello world!");
    assert_eq!(info, FileInfo::new(0, 12));
    let map = builder.build().unwrap();
    assert_eq!(map.get("hello world.txt"), Some(FileInfo::new(0, 12)));
    let archive = builder.into_inner();
    let mut stream = SpxArchive::new(&map, &archive).open("hello world.txt").unwrap();
    assert_eq!(stream.seek(SeekPos::Start(6)), 6);
    assert_eq!(stream.read_to_end(), b"world!".to_vec());
}

#[test]
fn interleaved_seeks_reproduce_content() {
    let content: Vec<u8> = (0..5000u32).map(|i| (i * 7 % 251) as u8).collect();
    let mut builder = SpxBuilder::new();
    write_entry(&mut builder, "first", b"0123456789");
    write_entry(&mut builder, "data/blob.bin", &content);
    let map = builder.build().unwrap();
    let archive = builder.into_inner();
    let mut stream = SpxArchive::new(&map, &archive).open("data/blob.bin").unwrap();
    for &k in &[4000u64, 3, 4999, 64, 63, 65, 0, 1234, 128, 2500] {
        assert_eq!(stream.seek(SeekPos::Start(k)), k);
        let got = stream.read(100);
        let end = (k as usize + 100).min(content.len());
        assert_eq!(got, content[k as usize..end].to_vec());
    }
    assert_eq!(stream.seek(SeekPos::Start(100)), 100);
    assert_eq!(stream.seek(SeekPos::Current(-37)), 63);
    assert_eq!(stream.read(10), content[63..73].to_vec());
    assert_eq!(stream.seek(SeekPos::End(-10)), 4990);
    assert_eq!(stream.read_to_end(), content[4990..].to_vec());
    assert_eq!(stream.seek(SeekPos::Start(17)), 17);
    assert_eq!(stream.read_to_end(), content[17..].to_vec());
}

#[test]
fn seeks_clamp_to_the_entry() {
    let (map, archive) = build_sample();
    let mut stream = SpxArchive::new(&map, &archive).open("example").unwrap();
    assert_eq!(stream.seek(SeekPos::End(5)), 4);
    assert_eq!(stream.read(10), Vec::<u8>::new());
    assert_eq!(stream.seek(SeekPos::Start(100)), 4);
    assert_eq!(stream.read_to_end(), Vec::<u8>::new());
    assert_eq!(stream.seek(SeekPos::Current(-100)), 0);
    assert_eq!(stream.read_to_end(), b"asdf".to_vec());
    assert_eq!(stream.seek(SeekPos::End(-100)), 0);
    assert_eq!(stream.seek(SeekPos::Current(i64::MAX)), 4);
    assert_eq!(stream.seek(SeekPos::End(i64::MIN)), 0);
    assert_eq!(stream.seek(SeekPos::End(-1)), 3);
    assert_eq!(stream.read_to_end(), b"f".to_vec());
    assert_eq!(stream.position(), 4);
}

#[test]
fn identical_input_builds_identically() {
    let (map1, archive1) = build_sample();
    let (map2, archive2) = build_sample();
    assert_eq!(archive1, archive2);
    assert_eq!(map1, map2);
}

#[test]
fn never_inserted_paths_miss() {
    let (map, archive) = build_sample();
    for path in ["missing", "", "Hello world.txt", "example ", "hello world.txt/", "exampl"] {
        assert_eq!(map.get(path), None);
        assert_eq!(read_path(&map, &archive, path), Err(SpxError::NotFound));
    }
}

#[test]
fn duplicate_path_is_refused() {
    let mut builder = SpxBuilder::new();
    write_entry(&mut builder, "a.txt", b"one");
    assert_eq!(builder.start_file("a.txt".to_string()).err(), Some(SpxError::DuplicatePath));
    assert!(builder.contains(b"a.txt"));
    assert!(!builder.contains(b"b.txt"));
    assert_eq!(builder.archive_bytes().len(), 3);
}

#[test]
fn empty_build_gives_empty_map() {
    let builder = SpxBuilder::new();
    let map = builder.build().unwrap();
    assert!(map.is_empty());
    assert_eq!(map.get("anything"), None);
    assert!(builder.archive_bytes().is_empty());
}

#[test]
fn writes_go_through_one_staging_buffer() {
    let big: Vec<u8> = (0..20000u32).map(|i| (i % 256) as u8).collect();
    let mut builder = SpxBuilder::new();
    let mut entry = builder.start_file("big".to_string()).unwrap();
    assert_eq!(entry.write(&big), 8192);
    assert_eq!(entry.write(&big[8192..]), 8192);
    assert_eq!(entry.write(&big[16384..]), 20000 - 16384);
    assert_eq!(entry.finish(), FileInfo::new(0, 20000));
    write_entry(&mut builder, "empty", b"");
    write_entry(&mut builder, "tail", b"xyz");
    let map = builder.build().unwrap();
    assert_eq!(map.get("empty"), Some(FileInfo::new(20000, 0)));
    assert_eq!(map.get("tail"), Some(FileInfo::new(20000, 3)));
    let archive = builder.into_inner();
    assert_eq!(archive.len(), 20003);
    let mut stream = SpxArchive::new(&map, &archive).open("big").unwrap();
    assert_eq!(stream.read(100000).len(), 8192);
    assert_eq!(stream.read_to_end(), big[8192..].to_vec());
    assert_eq!(read_path(&map, &archive, "empty").unwrap(), Vec::<u8>::new());
    assert_eq!(read_path(&map, &archive, "tail").unwrap(), b"xyz".to_vec());
}

#[test]
fn many_entries_round_trip() {
    let mut builder = SpxBuilder::new();
    let names: Vec<String> = (0..60).map(|i| format!("dir{}/file{}.dat", i % 7, i)).collect();
    for (i, name) in names.iter().enumerate() {
        let data: Vec<u8> = (0..i * 3).map(|j| (j ^ i) as u8).collect();
        write_entry(&mut builder, name, &data);
    }
    let map = builder.build().unwrap();
    let archive = builder.into_inner();
    for (i, name) in names.iter().enumerate() {
        let data: Vec<u8> = (0..i * 3).map(|j| (j ^ i) as u8).collect();
        assert_eq!(read_path(&map, &archive, name).unwrap(), data);
    }
    assert_eq!(map.get("dir0/file1.dat"), None);
}

#[test]
fn truncated_archive_reads_what_is_there() {
    let (map, archive) = build_sample();
    let short = &archive[..14];
    assert_eq!(read_path(&map, short, "example").unwrap(), b"as".to_vec());
    assert_eq!(read_path(&map, &archive[..5], "example").unwrap(), Vec::<u8>::new());
}

#[test]
fn cipher_writer_matches_archive_bytes() {
    let cipher = cipher_for_path("hello world.txt");
    let mut writer = SpxCipherWriter::new(cipher, Vec::new());
    assert_eq!(writer.write(b"Hello "), 6);
    assert_eq!(writer.write(b"world!"), 6);
    assert_eq!(writer.inner().len(), 12);
    writer.inner_mut().push(0);
    let bytes = writer.into_inner();
    assert_eq!(bytes[..12].to_vec(), HELLO_ARCHIVE[..12].to_vec());
}

#[test]
fn cipher_nonce_and_seek() {
    let key = [7u8; 32];
    let c = create_cipher(&key, 0x0102_0304_0506_0708);
    assert_eq!(c.nonce, [0, 0, 0, 0, 8, 7, 6, 5, 4, 3, 2, 1]);
    assert_eq!(c.key, key);
    assert_eq!(c.current_pos(), 0);
    let mut a = create_cipher(&key, 99);
    let whole = a.apply_keystream(&[0u8; 200]);
    assert_eq!(a.current_pos(), 200);
    let mut b = create_cipher(&key, 99);
    b.seek(130);
    assert_eq!(b.apply_keystream(&[0u8; 70]), whole[130..].to_vec());
    assert_ne!(whole[..64].to_vec(), vec![0u8; 64]);
}
