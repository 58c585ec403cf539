use binsearch::bin_dumper::{BinDumper, MAX_LEN, UNBOUNDED};
use binsearch::error::Error;

fn loaded(contents: &str) -> BinDumper {
    let mut bd = BinDumper::new();
    assert_eq!(bd.load(contents.as_bytes().to_vec()), Ok(()));
    bd
}

#[test]
fn dump_to_buffer() {
    let bd = loaded("abcdefghijkl");

    // All
    {
        let buf = bd.dump_to_buffer(0, std::i32::MAX);
        assert_eq!(buf.len(), 12);
        assert_eq!(buf, "abcdefghijkl".as_bytes());
    }

    // All
    {
        let buf = bd.dump_to_buffer(0, 12);
        assert_eq!(buf.len(), 12);
        assert_eq!(buf, "abcdefghijkl".as_bytes());
    }

    // Right
    {
        let buf = bd.dump_to_buffer(8, std::i32::MAX);
        assert_eq!(buf.len(), 4);
        assert_eq!(buf, "ijkl".as_bytes());
    }

    // Left
    {
        let buf = bd.dump_to_buffer(-4, 12);
        assert_eq!(buf.len(), 8);
        assert_eq!(buf, "abcdefgh".as_bytes());
    }

    // Partial
    {
        let buf = bd.dump_to_buffer(1, 10);
        assert_eq!(buf.len(), 10);
        assert_eq!(buf, "bcdefghijk".as_bytes());
    }
}

#[test]
fn new_is_empty() {
    let bd = BinDumper::new();

    assert_eq!(bd.len(), 0);
    assert_eq!(bd.bytes(), "".as_bytes());
}

#[test]
fn load_replaces_the_buffer() {
    let mut bd = BinDumper::new();

    assert_eq!(bd.load("abcdefghijkl".as_bytes().to_vec()), Ok(()));
    assert_eq!(bd.bytes(), "abcdefghijkl".as_bytes());
    assert_eq!(bd.len(), 12);

    assert_eq!(bd.load(Vec::new()), Ok(()));
    assert_eq!(bd.bytes(), "".as_bytes());
    assert_eq!(bd.len(), 0);

    assert_eq!(bd.load("mno".as_bytes().to_vec()), Ok(()));
    assert_eq!(bd.bytes(), "mno".as_bytes());
}

#[test]
fn load_refuses_what_the_cursor_cannot_address() {
    let mut bd = loaded("abc");
    let too_long: Vec<u8> = vec![0u8; MAX_LEN + 1];

    assert_eq!(bd.load(too_long), Err(Error::BufferTooLarge { len: MAX_LEN + 1 }));
    assert_eq!(bd.bytes(), "abc".as_bytes());
}

#[test]
fn unbounded_is_the_largest_size() {
    assert_eq!(UNBOUNDED, std::i32::MAX);
    assert_eq!(MAX_LEN, 2147483647);
}

#[test]
fn dump_whole_buffer() {
    let bd = loaded("abcdefghijkl");

    assert_eq!(bd.dump_to_buffer(0, UNBOUNDED), "abcdefghijkl".as_bytes());
}

#[test]
fn dump_unbounded_from_the_middle() {
    let bd = loaded("abcdefghijkl");

    let buf = bd.dump_to_buffer(8, UNBOUNDED);
    assert_eq!(buf, "ijkl".as_bytes());
    assert_eq!(buf.len(), 4);
}

#[test]
fn dump_negative_start_takes_from_the_size() {
    let bd = loaded("abcdefghijkl");

    let buf = bd.dump_to_buffer(-4, 12);
    assert_eq!(buf, "abcdefgh".as_bytes());
    assert_eq!(buf.len(), 8);
    assert_eq!(bd.dump_to_buffer(-1, 3), "ab".as_bytes());
    assert_eq!(bd.dump_to_buffer(-2, 20), "abcdefghijkl".as_bytes());
}

#[test]
fn dump_window_before_the_buffer_is_empty() {
    let bd = loaded("abcdefghijkl");

    assert_eq!(bd.dump_to_buffer(-3, 3), "".as_bytes());
    assert_eq!(bd.dump_to_buffer(-4, 3), "".as_bytes());
    assert_eq!(bd.dump_to_buffer(std::i32::MIN, std::i32::MAX), "".as_bytes());
}

#[test]
fn dump_at_the_end_of_the_buffer() {
    let bd = loaded("abcdefghijkl");

    assert_eq!(bd.dump_to_buffer(11, 3), "l".as_bytes());
    assert_eq!(bd.dump_to_buffer(12, 1), "".as_bytes());
    assert_eq!(bd.dump_to_buffer(13, 1), "".as_bytes());
    assert_eq!(bd.dump_to_buffer(std::i32::MAX, std::i32::MAX), "".as_bytes());
}

#[test]
fn dump_size_zero_or_less_is_empty() {
    let bd = loaded("abcdefghijkl");

    assert_eq!(bd.dump_to_buffer(0, 0), "".as_bytes());
    assert_eq!(bd.dump_to_buffer(5, 0), "".as_bytes());
    assert_eq!(bd.dump_to_buffer(5, -1), "".as_bytes());
    assert_eq!(bd.dump_to_buffer(5, std::i32::MIN), "".as_bytes());
    assert_eq!(bd.dump_to_buffer(-5, std::i32::MIN), "".as_bytes());
}

#[test]
fn dump_from_an_empty_buffer_is_empty() {
    let bd = BinDumper::new();

    assert_eq!(bd.dump_to_buffer(0, UNBOUNDED), "".as_bytes());
    assert_eq!(bd.dump_to_buffer(0, 1), "".as_bytes());
    assert_eq!(bd.dump_to_buffer(3, 1), "".as_bytes());
    assert_eq!(bd.dump_to_buffer(-3, 5), "".as_bytes());
}

#[test]
fn dump_never_leaves_the_buffer() {
    let bd = loaded("abcdefghijkl");
    let edges = [
        std::i32::MIN,
        -13,
        -12,
        -1,
        0,
        1,
        11,
        12,
        13,
        std::i32::MAX,
    ];

    for offset in edges {
        for size in edges {
            let buf = bd.dump_to_buffer(offset, size);
            assert!(buf.len() <= 12);
            if !buf.is_empty() {
                let start = if offset < 0 { 0 } else { offset as usize };
                assert!(start + buf.len() <= 12);
                assert_eq!(buf, &"abcdefghijkl".as_bytes()[start..start + buf.len()]);
            }
        }
    }
}

#[test]
fn dump_appends_to_the_output() {
    let bd = loaded("abcdefghijkl");
    let mut output: Vec<u8> = "xy".as_bytes().to_vec();

    bd.dump(3, 4, &mut output);
    assert_eq!(output, "xydefg".as_bytes());
    bd.dump(-1, 2, &mut output);
    assert_eq!(output, "xydefga".as_bytes());
    bd.dump(12, 2, &mut output);
    assert_eq!(output, "xydefga".as_bytes());
}

#[test]
fn search_puts_the_cursor_on_the_match() {
    let bd = loaded("abcdefghijkl");
    let mut offs: i32 = 0;

    assert!(bd.search(&mut offs, "bcd".as_bytes()));
    assert_eq!(offs, 1);
    assert_eq!(bd.dump_to_buffer(offs, 2), "bc".as_bytes());
}

#[test]
fn search_finds_a_match_at_the_cursor() {
    let bd = loaded("abcdefghijkl");
    let mut offs: i32 = 0;

    assert!(bd.search(&mut offs, "a".as_bytes()));
    assert_eq!(offs, 0);
    offs = 10;
    assert!(bd.search(&mut offs, "kl".as_bytes()));
    assert_eq!(offs, 10);
}

#[test]
fn search_takes_the_first_match_from_the_cursor_on() {
    let bd = loaded("abcdabcdaxyz");
    let mut offs: i32 = 0;

    assert!(bd.search(&mut offs, "a".as_bytes()));
    assert_eq!(offs, 0);
    offs += 1;
    assert!(bd.search(&mut offs, "a".as_bytes()));
    assert_eq!(offs, 4);
    offs += 1;
    assert!(bd.search(&mut offs, "a".as_bytes()));
    assert_eq!(offs, 8);
    offs += 1;
    assert!(!bd.search(&mut offs, "a".as_bytes()));
    assert_eq!(offs, 9);
}

#[test]
fn search_does_not_look_backward() {
    let bd = loaded("abcdefghijkl");
    let mut offs: i32 = 2;

    assert!(!bd.search(&mut offs, "bcd".as_bytes()));
    assert_eq!(offs, 2);
}

#[test]
fn search_from_before_the_buffer_starts_at_its_start() {
    let bd = loaded("abcdefghijkl");
    let mut offs: i32 = -7;

    assert!(bd.search(&mut offs, "cd".as_bytes()));
    assert_eq!(offs, 2);
}

#[test]
fn search_empty_pattern_matches_where_the_cursor_stands() {
    let bd = loaded("abcdefghijkl");

    for at in [0, 5, 12, 13, -1, std::i32::MAX, std::i32::MIN] {
        let mut offs: i32 = at;
        assert!(bd.search(&mut offs, "".as_bytes()));
        assert_eq!(offs, at);
    }
}

#[test]
fn search_without_a_match_leaves_the_cursor() {
    let bd = loaded("abcdefghijkl");

    for at in [0, 3, 12, 40, -2] {
        let mut offs: i32 = at;
        assert!(!bd.search(&mut offs, "xy".as_bytes()));
        assert_eq!(offs, at);
    }
}

#[test]
fn search_pattern_longer_than_what_is_left() {
    let bd = loaded("abcdefghijkl");
    let mut offs: i32 = 0;

    assert!(!bd.search(&mut offs, "abcdefghijklm".as_bytes()));
    assert_eq!(offs, 0);
    assert!(!bd.search(&mut offs, "klm".as_bytes()));
    assert_eq!(offs, 0);
    assert!(bd.search(&mut offs, "abcdefghijkl".as_bytes()));
    assert_eq!(offs, 0);
}

#[test]
fn search_in_an_empty_buffer() {
    let bd = BinDumper::new();
    let mut offs: i32 = 0;

    assert!(!bd.search(&mut offs, "a".as_bytes()));
    assert_eq!(offs, 0);
    assert!(bd.search(&mut offs, "".as_bytes()));
    assert_eq!(offs, 0);
}

#[test]
fn search_overlapping_candidates() {
    let bd = loaded("aaab");
    let mut offs: i32 = 0;

    assert!(bd.search(&mut offs, "aab".as_bytes()));
    assert_eq!(offs, 1);
}
