use photo_server::album::Album;
use photo_server::http::HttpError;

fn raw(names: &[&str]) -> Vec<Vec<u8>> {
    names.iter().map(|n| n.as_bytes().to_vec()).collect()
}

fn album(names: &[&str]) -> Album {
    Album::new(&raw(names)).unwrap()
}

fn strings(names: &[&str]) -> Vec<String> {
    names.iter().map(|n| n.to_string()).collect()
}

#[test]
fn album_classifies_its_files() {
    let a = album(&["b.jpg", "README.txt", "notes.txt", "a.JPG", "movie.mp4", "c.jpeg"]);
    assert_eq!(a.readme(), Some("README.txt"));
    assert_eq!(a.jpegs(), &strings(&["a.JPG", "b.jpg"]));
    assert_eq!(a.others(), &strings(&["c.jpeg", "movie.mp4", "notes.txt"]));
}

#[test]
fn album_of_nothing_is_empty() {
    let a = album(&[]);
    assert_eq!(a.readme(), None);
    assert!(a.jpegs().is_empty());
    assert!(a.others().is_empty());
}

#[test]
fn album_sorts_by_byte_value() {
    let a = album(&["b.jpg", "B.jpg", "a.jpg", "_.jpg", "10.jpg", "9.jpg", "a-1.jpg", "a.1.jpg", "ab.jpg"]);
    let mut expected = strings(&["b.jpg", "B.jpg", "a.jpg", "_.jpg", "10.jpg", "9.jpg", "a-1.jpg", "a.1.jpg", "ab.jpg"]);
    expected.sort();
    assert_eq!(a.jpegs(), &expected);
    assert_eq!(
        a.jpegs(),
        &strings(&["10.jpg", "9.jpg", "B.jpg", "_.jpg", "a-1.jpg", "a.1.jpg", "a.jpg", "ab.jpg", "b.jpg"])
    );
}

#[test]
fn album_puts_a_prefix_first() {
    let a = album(&["ab", "a", "abc", ""]);
    assert_eq!(a.others(), &strings(&["", "a", "ab", "abc"]));
}

#[test]
fn album_readme_is_matched_exactly() {
    let a = album(&["readme.txt", "Readme.txt", "README.TXT", "README.txt.bak"]);
    assert_eq!(a.readme(), None);
    assert_eq!(a.others(), &strings(&["README.TXT", "README.txt.bak", "Readme.txt", "readme.txt"]));
}

#[test]
fn album_lists_a_name_once() {
    let a = album(&["a.jpg", "x", "a.jpg", "x", "README.txt", "README.txt"]);
    assert_eq!(a.jpegs(), &strings(&["a.jpg"]));
    assert_eq!(a.others(), &strings(&["x"]));
    assert_eq!(a.readme(), Some("README.txt"));
}

#[test]
fn album_fails_on_the_first_dubious_name() {
    let e = Album::new(&raw(&["a.jpg", "b c.jpg", "d?.jpg"])).unwrap_err();
    assert_eq!(e.0, b"b c.jpg".to_vec());
    let e = Album::new(&vec![b"ok".to_vec(), vec![0xff, 0xfe]]).unwrap_err();
    assert_eq!(e.0, vec![0xff, 0xfe]);
}

#[test]
fn album_listing_is_reproducible() {
    let names = ["c.jpg", "a.jpg", "z", "README.txt", "b.jpg", "m"];
    let first = album(&names);
    let mut shuffled = names;
    shuffled.reverse();
    shuffled.swap(1, 4);
    let second = album(&shuffled);
    assert_eq!(first.jpegs(), second.jpegs());
    assert_eq!(first.others(), second.others());
    assert_eq!(first.readme(), second.readme());
    let again = album(&names);
    assert_eq!(first.jpegs(), again.jpegs());
    assert_eq!(first.others(), again.others());
}

#[test]
fn album_sorts_many_names() {
    let mut names: Vec<String> = Vec::new();
    let mut seed: u32 = 12345;
    for _ in 0..300 {
        seed = seed.wrapping_mul(1103515245).wrapping_add(12345);
        names.push(format!("img{}.jpg", seed % 1000));
    }
    let raw: Vec<Vec<u8>> = names.iter().map(|n| n.as_bytes().to_vec()).collect();
    let a = Album::new(&raw).unwrap();
    names.sort();
    names.dedup();
    assert_eq!(a.jpegs(), &names);
}

#[test]
fn previous_next_of_the_only_picture() {
    let a = album(&["only.jpg"]);
    assert_eq!(a.previous_next("only.jpg").unwrap(), ("only.jpg", "only.jpg"));
}

#[test]
fn previous_next_wraps_around() {
    let a = album(&["c.jpg", "a.jpg", "b.jpg"]);
    assert_eq!(a.previous_next("b.jpg").unwrap(), ("a.jpg", "c.jpg"));
    assert_eq!(a.previous_next("a.jpg").unwrap(), ("c.jpg", "b.jpg"));
    assert_eq!(a.previous_next("c.jpg").unwrap(), ("b.jpg", "a.jpg"));
}

#[test]
fn previous_next_of_two() {
    let a = album(&["a.jpg", "b.jpg", "README.txt"]);
    assert_eq!(a.previous_next("a.jpg").unwrap(), ("b.jpg", "b.jpg"));
    assert_eq!(a.previous_next("b.jpg").unwrap(), ("a.jpg", "a.jpg"));
}

#[test]
fn previous_next_fails_for_a_missing_picture() {
    let a = album(&["a.jpg", "c.jpg", "other.txt"]);
    assert!(matches!(a.previous_next("b.jpg"), Err(HttpError::NotFound)));
    assert!(matches!(a.previous_next("0.jpg"), Err(HttpError::NotFound)));
    assert!(matches!(a.previous_next("z.jpg"), Err(HttpError::NotFound)));
    assert!(matches!(a.previous_next("other.txt"), Err(HttpError::NotFound)));
    assert!(matches!(a.previous_next("A.jpg"), Err(HttpError::NotFound)));
    assert!(matches!(a.previous_next("\u{e9}.jpg"), Err(HttpError::NotFound)));
    assert!(matches!(a.previous_next(""), Err(HttpError::NotFound)));
    assert!(matches!(album(&[]).previous_next("a.jpg"), Err(HttpError::NotFound)));
}
