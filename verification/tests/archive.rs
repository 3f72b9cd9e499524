use emwin_tg::archive::{member_names, open};
use emwin_tg::product::{mime_type_of, MAX_MEMBER_BYTES};
use emwin_tg::{Error, Product, StreamState};
use std::io::Write;

/// An archive of the given members, deflated.
fn zip_of(members: &[(&str, &[u8])]) -> Vec<u8> {
    let mut writer = zip::ZipWriter::new(std::io::Cursor::new(Vec::new()));
    for (name, contents) in members {
        writer.start_file(*name, zip::write::FileOptions::default()).unwrap();
        writer.write_all(contents).unwrap();
    }
    writer.finish().unwrap().into_inner()
}

/// An archive of one stored member, written out by hand so that the header
/// fields can be set freely.
fn raw_zip(name: &str, contents: &[u8], flags: u16, extra: &[u8], declared_size: u32) -> Vec<u8> {
    let mut out: Vec<u8> = Vec::new();
    out.extend_from_slice(&0x0403_4b50u32.to_le_bytes());
    out.extend_from_slice(&20u16.to_le_bytes());
    out.extend_from_slice(&flags.to_le_bytes());
    out.extend_from_slice(&0u16.to_le_bytes());
    out.extend_from_slice(&0u16.to_le_bytes());
    out.extend_from_slice(&0x21u16.to_le_bytes());
    out.extend_from_slice(&0u32.to_le_bytes());
    out.extend_from_slice(&(contents.len() as u32).to_le_bytes());
    out.extend_from_slice(&declared_size.to_le_bytes());
    out.extend_from_slice(&(name.len() as u16).to_le_bytes());
    out.extend_from_slice(&0u16.to_le_bytes());
    out.extend_from_slice(name.as_bytes());
    out.extend_from_slice(contents);

    let directory_at = out.len() as u32;
    out.extend_from_slice(&0x0201_4b50u32.to_le_bytes());
    out.extend_from_slice(&20u16.to_le_bytes());
    out.extend_from_slice(&20u16.to_le_bytes());
    out.extend_from_slice(&flags.to_le_bytes());
    out.extend_from_slice(&0u16.to_le_bytes());
    out.extend_from_slice(&0u16.to_le_bytes());
    out.extend_from_slice(&0x21u16.to_le_bytes());
    out.extend_from_slice(&0u32.to_le_bytes());
    out.extend_from_slice(&(contents.len() as u32).to_le_bytes());
    out.extend_from_slice(&declared_size.to_le_bytes());
    out.extend_from_slice(&(name.len() as u16).to_le_bytes());
    out.extend_from_slice(&(extra.len() as u16).to_le_bytes());
    out.extend_from_slice(&0u16.to_le_bytes());
    out.extend_from_slice(&0u16.to_le_bytes());
    out.extend_from_slice(&0u16.to_le_bytes());
    out.extend_from_slice(&0u32.to_le_bytes());
    out.extend_from_slice(&0u32.to_le_bytes());
    out.extend_from_slice(name.as_bytes());
    out.extend_from_slice(extra);
    let directory_len = out.len() as u32 - directory_at;

    out.extend_from_slice(&0x0605_4b50u32.to_le_bytes());
    out.extend_from_slice(&0u16.to_le_bytes());
    out.extend_from_slice(&0u16.to_le_bytes());
    out.extend_from_slice(&1u16.to_le_bytes());
    out.extend_from_slice(&1u16.to_le_bytes());
    out.extend_from_slice(&directory_len.to_le_bytes());
    out.extend_from_slice(&directory_at.to_le_bytes());
    out.extend_from_slice(&0u16.to_le_bytes());
    out
}

fn product(name: &str, contents: &[u8]) -> Product {
    Product { filename: String::from(name), contents: contents.to_vec() }
}

fn unpack(bytes: Vec<u8>) -> Vec<Result<Product, Error>> {
    StreamState::new().new_products_at(bytes, 0).expect("an archive")
}

fn member_error(outcome: &Result<Product, Error>) -> &str {
    match outcome {
        Err(Error::ArchiveMember(name)) => name.as_str(),
        other => panic!("unexpected outcome: {:?}", other),
    }
}

#[test]
fn member_limit_is_eight_mebibytes() {
    assert_eq!(MAX_MEMBER_BYTES, 8 * 1024 * 1024);
    assert_eq!(MAX_MEMBER_BYTES, 8 << 20);
}

#[test]
fn listing_is_sorted_by_name() {
    let bytes = zip_of(&[("b.txt", b"2"), ("C.TXT", b"3"), ("a.txt", b"1"), ("B.TXT", b"4")]);
    let archive = open(bytes).expect("an archive");
    assert_eq!(
        member_names(&archive),
        vec![
            String::from("B.TXT"),
            String::from("C.TXT"),
            String::from("a.txt"),
            String::from("b.txt")
        ]
    );
}

#[test]
fn listing_of_an_empty_archive_is_empty() {
    let archive = open(zip_of(&[])).expect("an archive");
    assert_eq!(member_names(&archive), Vec::<String>::new());
}

#[test]
fn bytes_that_are_no_archive_are_a_format_error() {
    assert!(matches!(open(Vec::new()), Err(Error::ArchiveFormat(_))));
    assert!(matches!(open(b"not a zip file at all".to_vec()), Err(Error::ArchiveFormat(_))));

    let mut registry = StreamState::new();
    registry.add_filenames_at(vec![String::from("KEPT.TXT")], 5);
    let outcome = registry.new_products_at(b"PK\x03\x04 truncated".to_vec(), 6);
    assert!(matches!(outcome, Err(Error::ArchiveFormat(_))));
    assert_eq!(registry.last_seen("KEPT.TXT"), Some(5));
}

#[test]
fn members_come_out_in_listing_order_with_upper_case_names() {
    let bytes = zip_of(&[("zulu.txt", b"last"), ("alpha.txt", b"first"), ("Mike.gif", b"GIF89a")]);
    let products = unpack(bytes);
    assert_eq!(products.len(), 3);
    assert_eq!(products[0].as_ref().unwrap(), &product("MIKE.GIF", b"GIF89a"));
    assert_eq!(products[1].as_ref().unwrap(), &product("ALPHA.TXT", b"first"));
    assert_eq!(products[2].as_ref().unwrap(), &product("ZULU.TXT", b"last"));
}

#[test]
fn only_new_members_are_taken_out() {
    let mut registry = StreamState::new();
    let first = registry
        .new_products_at(zip_of(&[("A.TXT", b"a"), ("B.TXT", b"b")]), 10)
        .expect("an archive");
    assert_eq!(first.len(), 2);

    let second = registry
        .new_products_at(zip_of(&[("A.TXT", b"a"), ("B.TXT", b"b"), ("C.TXT", b"c")]), 20)
        .expect("an archive");
    assert_eq!(second.len(), 1);
    assert_eq!(second[0].as_ref().unwrap(), &product("C.TXT", b"c"));
    assert_eq!(registry.last_seen("A.TXT"), Some(20));
    assert_eq!(registry.last_seen("C.TXT"), Some(20));

    let third = registry
        .new_products_at(zip_of(&[("A.TXT", b"a"), ("B.TXT", b"b"), ("C.TXT", b"c")]), 30)
        .expect("an archive");
    assert_eq!(third.len(), 0);
}

#[test]
fn registry_remembers_names_as_the_archive_spells_them() {
    let mut registry = StreamState::new();
    let products = registry.new_products_at(zip_of(&[("a.txt", b"a")]), 1).expect("an archive");
    assert_eq!(products[0].as_ref().unwrap(), &product("A.TXT", b"a"));
    assert_eq!(registry.last_seen("a.txt"), Some(1));
    assert_eq!(registry.last_seen("A.TXT"), None);
}

#[test]
fn nested_container_with_two_members_fails_under_its_name() {
    let inner = zip_of(&[("one.txt", b"1"), ("two.txt", b"2")]);
    let products = unpack(zip_of(&[("ARCH.ZIP", &inner)]));
    assert_eq!(products.len(), 1);
    assert_eq!(member_error(&products[0]), "ARCH.ZIP");
}

#[test]
fn nested_container_with_one_member_yields_that_member() {
    let inner = zip_of(&[("report.txt", b"inner text")]);
    let products = unpack(zip_of(&[("ARCH.ZIP", &inner)]));
    assert_eq!(products.len(), 1);
    let found = products[0].as_ref().unwrap();
    assert_eq!(found, &product("REPORT.TXT", b"inner text"));
    assert_eq!(found.mime_type(), Some("text/plain"));
}

#[test]
fn nested_container_is_known_by_its_upper_case_name() {
    let inner = zip_of(&[("chart.png", b"\x89PNG")]);
    let products = unpack(zip_of(&[("arch.zip", &inner)]));
    assert_eq!(products[0].as_ref().unwrap(), &product("CHART.PNG", b"\x89PNG"));

    let empty = zip_of(&[]);
    let products = unpack(zip_of(&[("arch.zip", &empty)]));
    assert_eq!(member_error(&products[0]), "ARCH.ZIP");
}

#[test]
fn containers_are_opened_through_several_levels() {
    let innermost = zip_of(&[("deep.txt", b"bottom")]);
    let middle = zip_of(&[("middle.zip", &innermost)]);
    let outer = zip_of(&[("outer.zip", &middle)]);
    let products = unpack(zip_of(&[("top.zip", &outer)]));
    assert_eq!(products.len(), 1);
    assert_eq!(products[0].as_ref().unwrap(), &product("DEEP.TXT", b"bottom"));

    let pair = zip_of(&[("x.txt", b"x"), ("y.txt", b"y")]);
    let middle = zip_of(&[("middle.zip", &pair)]);
    let products = unpack(zip_of(&[("top.zip", &middle)]));
    assert_eq!(member_error(&products[0]), "MIDDLE.ZIP");
}

#[test]
fn nested_container_that_is_no_archive_fails_under_its_name() {
    let products = unpack(zip_of(&[("broken.zip", b"these bytes are no archive")]));
    assert_eq!(products.len(), 1);
    assert_eq!(member_error(&products[0]), "BROKEN.ZIP");
}

#[test]
fn one_bad_member_does_not_stop_the_others() {
    let pair = zip_of(&[("x.txt", b"x"), ("y.txt", b"y")]);
    let bytes = zip_of(&[
        ("A.TXT", b"a"),
        ("B.TXT", b"b"),
        ("C.ZIP", &pair),
        ("D.TXT", b"d"),
        ("E.TXT", b"e"),
        ("F.TXT", b"f"),
        ("G.TXT", b"g"),
        ("H.TXT", b"h"),
        ("I.TXT", b"i"),
        ("J.TXT", b"j"),
    ]);
    let products = unpack(bytes);
    assert_eq!(products.len(), 10);
    let good: Vec<&Product> = products.iter().filter_map(|p| p.as_ref().ok()).collect();
    assert_eq!(good.len(), 9);
    assert_eq!(good[0], &product("A.TXT", b"a"));
    assert_eq!(good[8], &product("J.TXT", b"j"));
    assert_eq!(member_error(&products[2]), "C.ZIP");
}

#[test]
fn extract_takes_one_member_by_name() {
    let mut archive = open(zip_of(&[("a.txt", b"alpha"), ("b.txt", b"")])).expect("an archive");
    assert_eq!(Product::extract(&mut archive, "a.txt").unwrap(), product("A.TXT", b"alpha"));
    assert_eq!(Product::extract(&mut archive, "b.txt").unwrap(), product("B.TXT", b""));
    assert_eq!(Product::extract(&mut archive, "a.txt").unwrap(), product("A.TXT", b"alpha"));
}

#[test]
fn missing_member_fails_under_the_name_asked_for() {
    let mut archive = open(zip_of(&[("a.txt", b"alpha")])).expect("an archive");
    let outcome = Product::extract(&mut archive, "missing.txt");
    assert_eq!(member_error(&outcome), "MISSING.TXT");
    let outcome = Product::extract(&mut archive, "A.TXT");
    assert_eq!(member_error(&outcome), "A.TXT");
}

#[test]
fn member_that_was_read_becomes_the_product() {
    let made = Product::new(String::from("PLAIN.TXT"), b"text".to_vec()).unwrap();
    assert_eq!(made, product("PLAIN.TXT", b"text"));
    let made = Product::new(String::from("lower.zip"), b"kept as it is".to_vec()).unwrap();
    assert_eq!(made, product("lower.zip", b"kept as it is"));
    let made = Product::new(String::new(), Vec::new()).unwrap();
    assert_eq!(made, product("", b""));
    let outcome = Product::new(String::from("X.ZIP"), b"no archive".to_vec());
    assert_eq!(member_error(&outcome), "X.ZIP");
    let inner = zip_of(&[("in.jpg", b"\xff\xd8")]);
    assert_eq!(Product::new(String::from("X.ZIP"), inner).unwrap(), product("IN.JPG", b"\xff\xd8"));
}

#[test]
fn member_of_exactly_the_limit_is_read() {
    let contents = vec![7u8; MAX_MEMBER_BYTES as usize];
    let products = unpack(zip_of(&[("big.txt", &contents)]));
    let found = products[0].as_ref().unwrap();
    assert_eq!(found.filename, "BIG.TXT");
    assert_eq!(found.contents.len(), 8_388_608);
    assert!(found.contents.iter().all(|byte| *byte == 7));
}

#[test]
fn member_over_the_limit_fails() {
    let contents = vec![7u8; MAX_MEMBER_BYTES as usize + 1];
    let products = unpack(zip_of(&[("huge.txt", &contents), ("small.txt", b"ok")]));
    assert_eq!(products.len(), 2);
    assert_eq!(member_error(&products[0]), "HUGE.TXT");
    assert_eq!(products[1].as_ref().unwrap(), &product("SMALL.TXT", b"ok"));

    let products = unpack(raw_zip("claims.txt", b"tiny", 0, &[], 8_388_609));
    assert_eq!(member_error(&products[0]), "CLAIMS.TXT");
}

#[test]
fn member_shorter_than_declared_fails() {
    let products = unpack(raw_zip("short.txt", b"four", 0, &[], 400));
    assert_eq!(products.len(), 1);
    assert_eq!(member_error(&products[0]), "SHORT.TXT");
}

#[test]
fn hand_written_archive_is_read() {
    let products = unpack(raw_zip("plain.txt", b"stored bytes", 0, &[], 12));
    assert_eq!(products.len(), 1);
    assert_eq!(products[0].as_ref().unwrap(), &product("PLAIN.TXT", b"stored bytes"));
}

#[test]
fn encrypted_member_fails() {
    let products = unpack(raw_zip("secret.txt", b"0123456789abcdefghij", 1, &[], 8));
    assert_eq!(products.len(), 1);
    assert_eq!(member_error(&products[0]), "SECRET.TXT");
}

#[test]
fn member_marked_for_aes_but_not_encrypted_fails() {
    // Header 0x9901, length 7: vendor version 2, vendor "AE", strength 1,
    // stored. With the encryption flag clear.
    let extra = [0x01, 0x99, 0x07, 0x00, 0x02, 0x00, 0x41, 0x45, 0x01, 0x00, 0x00];
    let products = unpack(raw_zip("odd.txt", b"content", 0, &extra, 7));
    assert_eq!(products.len(), 1);
    assert_eq!(member_error(&products[0]), "ODD.TXT");

    let inner = raw_zip("odd.txt", b"content", 0, &extra, 7);
    let products = unpack(zip_of(&[("wrap.zip", &inner)]));
    assert_eq!(member_error(&products[0]), "WRAP.ZIP");
}

#[test]
fn mime_type_follows_the_ending() {
    assert_eq!(mime_type_of("A.TXT"), Some("text/plain"));
    assert_eq!(mime_type_of("A.GIF"), Some("image/gif"));
    assert_eq!(mime_type_of("A.JPG"), Some("image/jpeg"));
    assert_eq!(mime_type_of("A.PNG"), Some("image/png"));
    assert_eq!(mime_type_of(".TXT"), Some("text/plain"));
    assert_eq!(mime_type_of("A.ZIP"), None);
    assert_eq!(mime_type_of("A.JPEG"), None);
    assert_eq!(mime_type_of("TXT"), None);
    assert_eq!(mime_type_of("A.TXT.BAK"), None);
    assert_eq!(mime_type_of("A.txt"), None);
    assert_eq!(mime_type_of(""), None);
}

#[test]
fn mime_type_ignores_the_case_of_the_name() {
    assert_eq!(product("report.txt", b"").mime_type(), Some("text/plain"));
    assert_eq!(product("REPORT.TXT", b"").mime_type(), Some("text/plain"));
    assert_eq!(product("Radar.Gif", b"").mime_type(), Some("image/gif"));
    assert_eq!(product("sat.jPg", b"").mime_type(), Some("image/jpeg"));
    assert_eq!(product("map.png", b"").mime_type(), Some("image/png"));
    assert_eq!(product("notes.doc", b"").mime_type(), None);
    assert_eq!(product("", b"").mime_type(), None);
}

#[test]
fn contents_are_read_as_text() {
    assert_eq!(product("A.TXT", b"plain words").string_contents(), "plain words");
    assert_eq!(product("A.TXT", "caf\u{e9}".as_bytes()).string_contents(), "caf\u{e9}");
    assert_eq!(product("A.TXT", b"").string_contents(), "");
    assert_eq!(product("A.TXT", b"bad \xff byte").string_contents(), "bad \u{fffd} byte");
    assert_eq!(product("A.TXT", b"plain words").into_string_lossy(), "plain words");
    assert_eq!(product("A.TXT", b"\xc3").into_string_lossy(), "\u{fffd}");
}

#[test]
fn two_entries_under_one_name_are_listed_once() {
    let bytes = zip_of(&[("twice.txt", b"first"), ("other.txt", b"o"), ("twice.txt", b"second")]);
    let archive = open(bytes.clone()).expect("an archive");
    assert_eq!(member_names(&archive), vec![String::from("other.txt"), String::from("twice.txt")]);
    let products = unpack(bytes);
    assert_eq!(products.len(), 2);
    assert_eq!(products[0].as_ref().unwrap(), &product("OTHER.TXT", b"o"));
    assert_eq!(products[1].as_ref().unwrap(), &product("TWICE.TXT", b"second"));

    // As a container it holds two entries, whatever their names.
    let inner = zip_of(&[("same.txt", b"1"), ("same.txt", b"2")]);
    let products = unpack(zip_of(&[("pair.zip", &inner)]));
    assert_eq!(member_error(&products[0]), "PAIR.ZIP");
}
