use wadmus::wad::{find_song, read_lump, Wad, WadError};

fn push_le_u32(v: &mut Vec<u8>, x: u32) {
    v.extend_from_slice(&x.to_le_bytes());
}

/// Build a tiny synthetic WAD with two lumps: HELLO and D_TEST.
fn make_fake_wad() -> Vec<u8> {
    let mut f: Vec<u8> = Vec::new();

    let ident = *b"IWAD";
    let numlumps = 2u32;

    // Lump data immediately after the 12-byte header.
    let lump0_data = b"hello";
    let lump1_data = b"\x4D\x54\x68\x64"; // "MThd", start of MIDI, for detection testing
    let header_size = 12u32;
    let lump0_ofs = header_size;
    let lump1_ofs = lump0_ofs + lump0_data.len() as u32;
    let dir_ofs = lump1_ofs + lump1_data.len() as u32;

    f.extend_from_slice(&ident);
    push_le_u32(&mut f, numlumps);
    push_le_u32(&mut f, dir_ofs);

    f.extend_from_slice(lump0_data);
    f.extend_from_slice(lump1_data);

    // Directory entries: filepos[4], size[4], name[8].
    push_le_u32(&mut f, lump0_ofs);
    push_le_u32(&mut f, lump0_data.len() as u32);
    let mut name0 = [0u8; 8];
    name0[..5].copy_from_slice(b"HELLO");
    f.extend_from_slice(&name0);

    push_le_u32(&mut f, lump1_ofs);
    push_le_u32(&mut f, lump1_data.len() as u32);
    let mut name1 = [0u8; 8];
    name1[..6].copy_from_slice(b"D_TEST");
    f.extend_from_slice(&name1);

    f
}

#[test]
fn opens_and_lists() {
    const MUSIC_PREFIXES: &[&str] = &["D_", "MUS_"];
    let wad = Wad::open(make_fake_wad()).unwrap();
    assert_eq!(wad.len(), 2);
    let names = wad.names();
    assert_eq!(names, vec!["HELLO".to_string(), "D_TEST".to_string()]);
    assert!(wad.contains("hello")); // case-insensitive
    assert_eq!(wad.list_with_prefixes(MUSIC_PREFIXES).len(), 1);
}

#[test]
fn reads_by_name_and_detects_format() {
    let wad = Wad::open(make_fake_wad()).unwrap();
    let hello = wad.read("hello").unwrap();
    assert_eq!(hello, b"hello");

    let dtest = wad.read("D_TEST").unwrap();
    assert!(dtest.starts_with(b"MThd")); // looks like MIDI
}

#[test]
fn bad_header_is_rejected() {
    let err = Wad::open(b"XXXX\0\0\0\0\0\0\0\0".to_vec()).unwrap_err();
    let msg = err.message();
    assert!(msg.contains("not a WAD file"));
}

#[test]
fn list_with_prefixes_is_case_insensitive() {
    const PREFS: &[&str] = &["d_", "mus_"]; // lower
    let wad = Wad::open(make_fake_wad()).unwrap();
    assert_eq!(wad.list_with_prefixes(PREFS).len(), 1);
}

#[test]
fn bad_tag_yields_no_handle_at_all() {
    // A bad 4-byte tag fails open with the format error and produces no
    // partially usable handle.
    let mut data = make_fake_wad();
    data[0] = b'Z';
    let res = Wad::open(data);
    assert!(matches!(res, Err(WadError::NotAWad)));
}

#[test]
fn prefix_listing_returns_exactly_the_matching_lump() {
    // Prefixes ["D_", "MUS_"] on an archive with D_TEST and HELLO return
    // exactly the D_TEST lump, whatever the casing of the prefixes.
    let wad = Wad::open(make_fake_wad()).unwrap();
    for prefixes in [["D_", "MUS_"], ["d_", "mus_"], ["d_", "MUS_"]] {
        let listed = wad.list_with_prefixes(&prefixes);
        assert_eq!(listed.len(), 1);
        assert_eq!(listed[0].name, "D_TEST");
    }
    let indices = wad.iter_with_prefixes(&["d_", "mus_"]);
    assert_eq!(indices, vec![1]);
}

/// A WAD whose two lumps share the name FOO in different casings.
fn make_dup_name_wad() -> Vec<u8> {
    let mut f: Vec<u8> = Vec::new();
    f.extend_from_slice(b"PWAD");
    push_le_u32(&mut f, 2);
    push_le_u32(&mut f, 16);
    f.extend_from_slice(b"ABCD"); // 4 bytes of lump data at offset 12
    for (ofs, size, name) in [(12u32, 2u32, *b"foo\0\0\0\0\0"), (14, 2, *b"FOO\0\0\0\0\0")] {
        push_le_u32(&mut f, ofs);
        push_le_u32(&mut f, size);
        f.extend_from_slice(&name);
    }
    f
}

#[test]
fn lookup_first_agrees_with_lookup_all() {
    // Case-insensitive lookups, and the convenience accessor returns the
    // first of all matches, in file order.
    let wad = Wad::open(make_dup_name_wad()).unwrap();
    for query in ["foo", "FOO", "Foo"] {
        let all = wad.find_all(query);
        assert_eq!(all, vec![0, 1]);
        let first = wad.get_first(query).unwrap();
        assert_eq!(first.name, "FOO");
        assert_eq!(first.filepos, 12);
        assert_eq!(first.size, 2);
    }
    assert_eq!(wad.read("foo").unwrap(), b"AB");
    assert_eq!(wad.read_at(1).unwrap(), b"CD");
}

#[test]
fn missing_lump_is_reported_per_read() {
    let wad = Wad::open(make_fake_wad()).unwrap();
    let err = wad.read("ABSENT").unwrap_err();
    assert!(matches!(err, WadError::LumpNotFound(ref n) if n == "ABSENT"));
    assert!(err.message().contains("lump not found: ABSENT"));
    assert!(matches!(wad.read_at(7), Err(WadError::IndexOutOfRange)));
}

#[test]
fn out_of_range_span_fails_only_that_read() {
    // One lump declares a span past the end of the container: reading it
    // fails with the short-read error, but the index stays usable.
    let mut f: Vec<u8> = Vec::new();
    f.extend_from_slice(b"IWAD");
    push_le_u32(&mut f, 2);
    push_le_u32(&mut f, 14);
    f.extend_from_slice(b"OK"); // 2 bytes at offset 12
    for (ofs, size, name) in [(12u32, 2u32, *b"GOOD\0\0\0\0"), (1000, 50, *b"BAD\0\0\0\0\0")] {
        push_le_u32(&mut f, ofs);
        push_le_u32(&mut f, size);
        f.extend_from_slice(&name);
    }
    let wad = Wad::open(f).unwrap();
    assert!(matches!(wad.read("BAD"), Err(WadError::ShortRead)));
    assert_eq!(wad.read("GOOD").unwrap(), b"OK");
}

#[test]
fn truncated_directory_fails_open() {
    let mut f = make_fake_wad();
    f.truncate(f.len() - 1); // chop one byte off the directory
    assert!(matches!(Wad::open(f), Err(WadError::ShortRead)));
    assert!(matches!(Wad::open(b"IW".to_vec()), Err(WadError::ShortRead)));
}

#[test]
fn read_lump_helper_opens_and_reads() {
    assert_eq!(read_lump(make_fake_wad(), "hello").unwrap(), b"hello");
    assert!(matches!(
        read_lump(make_fake_wad(), "NOPE"),
        Err(WadError::LumpNotFound(_))
    ));
    assert!(matches!(
        read_lump(b"XXXX\0\0\0\0\0\0\0\0".to_vec(), "hello"),
        Err(WadError::NotAWad)
    ));
}

#[test]
fn find_song_tries_exact_then_music_prefixes() {
    let names = vec![
        "D_RUNNIN".to_string(),
        "MUS_E1M1".to_string(),
        "HELLO".to_string(),
    ];
    assert_eq!(find_song(&names, "D_RUNNIN"), Some("D_RUNNIN"));
    assert_eq!(find_song(&names, "runnin"), Some("D_RUNNIN"));
    assert_eq!(find_song(&names, "e1m1"), Some("MUS_E1M1"));
    assert_eq!(find_song(&names, "  hello \n"), Some("HELLO"));
    assert_eq!(find_song(&names, "absent"), None);
    assert_eq!(find_song(&names, "   "), None);
    assert_eq!(find_song(&names, ""), None);
}
