use gap_buffer::arith::{dot, fib, gen_fib, triangle_number, triangle_number_fold};
use gap_buffer::ascii::Ascii;
use gap_buffer::cli_error::{describe, CliError};
use gap_buffer::complex::Complex;
use gap_buffer::counters::{I32Range, ItsFlaky};
use gap_buffer::decimal::{parse_number, push_decimal};
use gap_buffer::http::get_request;
use gap_buffer::image::Image;
use gap_buffer::interval::Interval;
use gap_buffer::parse_int::{parse_i32, ParseIntError};
use gap_buffer::spawn_blocking::SpawnBlocking;
use gap_buffer::statistic::Statistic;
use gap_buffer::string_set::{find_unknown, StringSet, StringSetHash};
use gap_buffer::tree::BinaryTree;

#[test]
fn test_dot_product() {
    let v1 = vec![1, 2, 3];
    let v2 = vec![4, 5, 6];
    assert_eq!(dot(&v1, &v2), 32);

    let v1: Vec<i64> = vec![1, 2, 3];
    let v2: Vec<i64> = vec![4, 5, 6];
    assert_eq!(dot(v1.as_slice(), v2.as_slice()), 32);
}

#[test]
fn dot_uses_the_length_of_the_first() {
    assert_eq!(dot(&[2, -3], &[5, 7, 100]), -11);
    assert_eq!(dot(&[], &[1]), 0);
}

#[test]
fn test_add() {
    let out = fib(4);
    assert_eq!(out as f64, 3.0);
}

#[test]
fn fib_values() {
    assert_eq!(fib(0), 0);
    assert_eq!(fib(1), 1);
    assert_eq!(fib(10), 55);
}

#[test]
fn test_fib() {
    let iter = gen_fib(10);

    assert_eq!(iter, vec![0, 1, 1, 2, 3, 5, 8, 13, 21, 34]);
}

#[test]
fn gen_fib_largest_fitting() {
    let v = gen_fib(92);
    assert_eq!(v[91], 4660046610375530309);
    assert!(gen_fib(0).is_empty());
}

#[test]
fn test_triangle_num() {
    assert_eq!(6, triangle_number(3));
    assert_eq!(6, triangle_number_fold(3));
}

#[test]
fn triangle_numbers_agree() {
    for n in 0..200u32 {
        assert_eq!(triangle_number(n), n * (n + 1) / 2);
        assert_eq!(triangle_number_fold(n), triangle_number(n));
    }
    assert_eq!(triangle_number(92681), 4294930221);
}

#[test]
fn test_index() {
    let mut img: Image = Image::new(5, 5);

    img.set(2, 1, 1);
    img.set(2, 3, 9);

    let slice = img.row(2);
    assert_eq!([0, 1, 0, 9, 0], slice.as_slice());
    assert_eq!(img.row(1), vec![0, 0, 0, 0, 0]);
}

#[test]
fn test_interval() {
    let t1 = Interval::new(5, 10);
    let t2 = Interval::new(6, 15);
    let t3 = Interval::new(1, 4);
    let t4 = Interval::new(25, 30);

    assert!(t1 > t3);
    assert!(t1 >= t3);
    assert!(t2 <= t4);
    assert!(t2 <= t2);

    let mut v = vec![t1, t2, t3, t4];
    v.sort_by_key(|it| it.lower);
    assert_eq!(v, vec![t3, t1, t2, t4]);

    v.sort_unstable_by_key(|it| std::cmp::Reverse(it.lower));
    assert_eq!(v, vec![t4, t2, t1, t3]);
}

#[test]
fn overlapping_intervals_are_unordered() {
    let a = Interval::new(5, 10);
    let b = Interval::new(6, 15);
    assert_eq!(a.partial_cmp(&b), None);
    assert!(!(a < b) && !(a > b));
    assert_eq!(a.partial_cmp(&a), Some(std::cmp::Ordering::Equal));
    assert_eq!(Interval::new(1, 4).partial_cmp(&a), Some(std::cmp::Ordering::Less));
}

#[test]
fn chap_13_test_cow() {
    let msg = describe(&CliError::InvalidSize(23));
    assert_eq!(msg, "Invalid size 23");

    let mut errors: Vec<String> = vec![];
    let msg = describe(&CliError::NonExistentFile("a.txt"));
    errors.push(msg);
    assert_eq!(errors, vec!["Non-existent file a.txt".to_string()]);
}

#[test]
fn describe_every_error() {
    assert_eq!(describe(&CliError::TooFewArguments), "Too Few Arguments");
    assert_eq!(describe(&CliError::TooManyArguments), "Too many arguments");
    assert_eq!(describe(&CliError::InvalidSize(0)), "Invalid size 0");
    assert_eq!(
        describe(&CliError::InvalidSize(usize::MAX)),
        format!("Invalid size {}", usize::MAX)
    );
}

#[test]
fn decimal_writing() {
    let mut s = String::from("n=");
    push_decimal(&mut s, 1000);
    assert_eq!(s, "n=1000");
}

#[test]
fn test_from_into() {
    let s = "HI";
    let u: String = From::from(s);
    assert_eq!(s, u);


    let i1 = parse_i32(&[57, 56]);
    assert_eq!(i1.unwrap(), 98);
    let i2 = parse_i32(&[57, 56, 57, 56, 57, 56, 57, 56, 57, 56, 57, 56, 57, 56, 57]);
    assert_eq!(
        i2.unwrap_err().description(),
        "number too large to fit in target type"
    );
}

#[test]
fn parse_i32_errors_and_bounds() {
    assert_eq!(parse_i32(b""), Err(ParseIntError::Empty));
    assert_eq!(parse_i32(b"-"), Err(ParseIntError::InvalidDigit));
    assert_eq!(parse_i32(b"+"), Err(ParseIntError::InvalidDigit));
    assert_eq!(parse_i32(b"12a"), Err(ParseIntError::InvalidDigit));
    assert_eq!(parse_i32(b"2147483647"), Ok(i32::MAX));
    assert_eq!(parse_i32(b"2147483648"), Err(ParseIntError::PosOverflow));
    assert_eq!(parse_i32(b"-2147483648"), Ok(i32::MIN));
    assert_eq!(parse_i32(b"-2147483649"), Err(ParseIntError::NegOverflow));
    assert_eq!(parse_i32(b"+17"), Ok(17));
    assert_eq!(parse_i32(b"-0042"), Ok(-42));
    assert_eq!(parse_i32(b"99999999999x"), Err(ParseIntError::PosOverflow));
    for text in ["0", "-7", "+123", "2147483647", "-2147483648", "x", "", "--1", "3000000000"] {
        assert_eq!(
            parse_i32(text.as_bytes()).ok(),
            text.parse::<i32>().ok(),
            "{}",
            text
        );
    }
    assert_eq!(
        ParseIntError::NegOverflow.description(),
        "number too small to fit in target type"
    );
}

#[test]
fn test_peek() {
    let chars: Vec<char> = "1234,5678".chars().collect();
    let mut pos: usize = 0;

    assert_eq!(parse_number(&chars, &mut pos), 1234);
    assert_eq!(chars.get(pos), Some(&','));
    pos += 1;
    assert_eq!(parse_number(&chars, &mut pos), 5678);
    assert_eq!(chars.get(pos), None);
}

#[test]
fn parse_number_without_digits() {
    let chars: Vec<char> = "x1".chars().collect();
    let mut pos: usize = 0;
    assert_eq!(parse_number(&chars, &mut pos), 0);
    assert_eq!(pos, 0);
}

#[test]
fn test_custom_tree_iter() {
    let mut tree = BinaryTree::Empty;
    tree.add(6);
    tree.add(3);
    tree.add(9);
    tree.add(8);
    tree.add(4);

    let mut iter = tree.iter();
    let nodes = std::iter::from_fn(|| iter.next()).collect::<Vec<_>>();
    assert_eq!(nodes, vec![3, 4, 6, 8, 9]);
}

#[test]
fn tree_keeps_duplicates_in_order() {
    let mut tree = BinaryTree::Empty;
    for v in [5, -1, 5, 7, -1, 0] {
        tree.add(v);
    }
    let mut iter = tree.iter();
    let mut nodes = Vec::new();
    while let Some(v) = iter.next() {
        nodes.push(v);
    }
    assert_eq!(nodes, vec![-1, -1, 0, 5, 5, 7]);
    assert_eq!(iter.next(), None);
    assert_eq!(BinaryTree::Empty.iter().next(), None);
}

#[test]
fn test_ascii() {
    let bytes: Vec<u8> = b"This is ascii!".to_vec();
    let ascii = Ascii::new(bytes).unwrap();
    assert_eq!(
        String::from_utf8(ascii.as_bytes().clone()).unwrap(),
        "This is ascii!".to_string()
    );

    let bytes: Vec<u8> = "नमस्ते".to_string().into_bytes();
    let ascii = Ascii::new(bytes);
    assert!(ascii.is_err());
}

#[test]
fn not_ascii_hands_the_bytes_back() {
    let err = Ascii::new(vec![65, 200, 66]).err().unwrap();
    assert_eq!(err.bytes, vec![65, 200, 66]);
    assert!(Ascii::new(vec![]).is_ok());
    assert!(Ascii::new(vec![127]).is_ok());
    assert!(Ascii::new(vec![128]).is_err());
}

#[test]
fn statistic_is_left_unchanged() {
    let mut stat = Statistic::Population;
    stat.my();
    assert_eq!(stat, Statistic::Population);
}

#[test]
fn spawn_blocking_state_machine() {
    let mut state: SpawnBlocking<u32, &str> = SpawnBlocking::new();
    assert_eq!(state.poll("first"), None);
    assert_eq!(state.poll("second"), None);
    assert_eq!(state.complete(1200), Some("second"));
    assert_eq!(state.poll("third"), Some(1200));
    assert_eq!(state.poll("fourth"), None);

    let mut early: SpawnBlocking<u32, &str> = SpawnBlocking::new();
    assert_eq!(early.complete(7), None);
    assert_eq!(early.poll("w"), Some(7));
}

#[test]
fn test_stringset() {
    let mut hs = StringSetHash::new();
    hs.add("HI");
    hs.add("HELLO");
    hs.add("WOW");
    hs.add("NOICE");
    let u = find_unknown(&["HELLO", "NOICE", "whoa", "y u not?"], &hs);
    assert!(u.contains("whoa"));
    assert!(u.contains("y u not?"));
    assert!(!u.contains("HELLO"));
    assert!(!u.contains("NOICE"));
    assert!(!u.contains("HI"));
}

#[test]
fn string_set_adds_once() {
    let mut hs = StringSetHash::new();
    assert!(!hs.contains("a"));
    hs.add("a");
    hs.add("a");
    assert!(hs.contains("a"));
    assert!(!hs.contains("b"));
    let none = find_unknown(&[], &hs);
    assert!(!none.contains("a"));
}

#[test]
fn test_complex() {
    let c1 = Complex { re: 1, im: 4 };
    let c2 = Complex { re: 4, im: 2 };
    assert_eq!(c1.add(c2), Complex { re: 5, im: 6 });

    let c1 = Complex { re: 1, im: 4 };
    assert_eq!(c1.neg(), Complex { re: -1, im: -4 });

    let mut c1 = Complex { re: 1, im: 4 };
    c1.add_assign(Complex { re: 4, im: 2 });
    assert_eq!(c1, Complex { re: 5, im: 6 });
}

#[test]
fn test_custom_iter() {
    let mut r = I32Range { start: 1, end: 4 };
    let v = std::iter::from_fn(|| r.next()).collect::<Vec<_>>();
    assert_eq!(v, vec![1, 2, 3, 4]);
}

#[test]
fn i32_range_empty_and_upper_edge() {
    let mut r = I32Range { start: 5, end: 4 };
    assert_eq!(r.next(), None);
    let mut r = I32Range { start: i32::MAX - 1, end: i32::MAX - 1 };
    assert_eq!(r.next(), Some(i32::MAX - 1));
    assert_eq!(r.next(), None);
}

#[test]
fn test_fuse() {
    let mut flaky = ItsFlaky { ready: true };
    assert_eq!(flaky.next(), Some("Last item -- I promise!"));
    assert_eq!(flaky.next(), None);
    assert_eq!(flaky.next(), Some("Last item -- I promise!"));

    let mut flaky = ItsFlaky { ready: true };
    let mut flaky = std::iter::from_fn(move || flaky.next()).fuse();
    assert_eq!(flaky.next(), Some("Last item -- I promise!"));
    assert_eq!(flaky.next(), None);
    assert_eq!(flaky.next(), None);
}

#[test]
fn http_get_request_text() {
    assert_eq!(
        get_request("example.org", "/a/b"),
        "GET /a/b HTTP/1.1\r\nHost: example.org\r\n\r\n"
    );
}
