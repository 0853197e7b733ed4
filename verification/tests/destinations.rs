use date_sorter::calendar::CalendarDate;
use date_sorter::destination::{decimal_text, resolve_destination, two_digit_text};
use date_sorter::labels::MonthNames;
use date_sorter::paths::{file_name, is_same_path, join_path, path_parts, same_parts};

#[test]
fn a_date_maps_to_year_month_and_day_below_the_root() {
    let date = CalendarDate::new(2024, 3, 7);
    assert!(date.is_some());
    let dir = resolve_destination(date, "/sorted", "/sorted/NoDate", &MonthNames::english());
    assert_eq!(dir, "/sorted/2024/03 - March/07");
}

#[test]
fn the_month_folder_carries_the_name_of_the_table() {
    let date = CalendarDate::new(2024, 3, 7);
    let dir = resolve_destination(date, "/sorted", "/sorted/none", &MonthNames::russian());
    assert_eq!(dir, "/sorted/2024/03 - марта/07");
}

#[test]
fn months_and_days_are_padded_to_two_digits() {
    let names = MonthNames::english();
    let dir = resolve_destination(CalendarDate::new(1999, 12, 31), "out", "none", &names);
    assert_eq!(dir, "out/1999/12 - December/31");
    let dir = resolve_destination(CalendarDate::new(2000, 1, 1), "out", "none", &names);
    assert_eq!(dir, "out/2000/01 - January/01");
    let dir = resolve_destination(CalendarDate::new(2023, 10, 9), "out", "none", &names);
    assert_eq!(dir, "out/2023/10 - October/09");
}

#[test]
fn a_file_without_a_date_goes_to_the_directory_for_such_files() {
    let dir = resolve_destination(None, "/sorted", "/sorted/NoDate", &MonthNames::english());
    assert_eq!(dir, "/sorted/NoDate");
}

#[test]
fn a_root_that_ends_in_a_slash_gets_no_second_one() {
    let date = CalendarDate::new(2024, 3, 7);
    let dir = resolve_destination(date, "/sorted/", "/sorted/NoDate", &MonthNames::english());
    assert_eq!(dir, "/sorted/2024/03 - March/07");
    let dir = resolve_destination(date, "/", "/NoDate", &MonthNames::english());
    assert_eq!(dir, "/2024/03 - March/07");
    let dir = resolve_destination(date, "", "NoDate", &MonthNames::english());
    assert_eq!(dir, "2024/03 - March/07");
}

#[test]
fn years_are_written_without_padding() {
    let names = MonthNames::english();
    let dir = resolve_destination(CalendarDate::new(987, 6, 5), "r", "n", &names);
    assert_eq!(dir, "r/987/06 - June/05");
    let dir = resolve_destination(CalendarDate::new(12345, 6, 5), "r", "n", &names);
    assert_eq!(dir, "r/12345/06 - June/05");
    let dir = resolve_destination(CalendarDate::new(-44, 3, 15), "r", "n", &names);
    assert_eq!(dir, "r/-44/03 - March/15");
    let dir = resolve_destination(CalendarDate::new(0, 1, 1), "r", "n", &names);
    assert_eq!(dir, "r/0/01 - January/01");
}

#[test]
fn numbers_are_written_in_decimal() {
    assert_eq!(decimal_text(0), "0");
    assert_eq!(decimal_text(7), "7");
    assert_eq!(decimal_text(10), "10");
    assert_eq!(decimal_text(2024), "2024");
    assert_eq!(decimal_text(-1), "-1");
    assert_eq!(decimal_text(-2024), "-2024");
    assert_eq!(decimal_text(i32::MAX), "2147483647");
    assert_eq!(decimal_text(i32::MIN), "-2147483648");
    for number in -1500..1500 {
        assert_eq!(decimal_text(number), number.to_string());
    }
}

#[test]
fn two_digits_keep_a_leading_zero() {
    assert_eq!(two_digit_text(0), "00");
    assert_eq!(two_digit_text(7), "07");
    assert_eq!(two_digit_text(10), "10");
    assert_eq!(two_digit_text(99), "99");
    assert_eq!(two_digit_text(100), "100");
    assert_eq!(two_digit_text(u32::MAX), "4294967295");
    for number in 0u32..=1100 {
        assert_eq!(two_digit_text(number), format!("{:02}", number));
    }
}

#[test]
fn joining_puts_one_slash_between_base_and_part() {
    assert_eq!(join_path("/a/b", "c"), "/a/b/c");
    assert_eq!(join_path("a", "b"), "a/b");
    assert_eq!(join_path("/a/b/", "c"), "/a/b/c");
    assert_eq!(join_path("/", "c"), "/c");
    assert_eq!(join_path("", "c"), "c");
    assert_eq!(join_path("/a", ""), "/a/");
    assert_eq!(join_path("", ""), "");
    assert_eq!(join_path("/каталог", "файл.txt"), "/каталог/файл.txt");
    assert_eq!(join_path("/a/dir with space", "03 - March"), "/a/dir with space/03 - March");
}

#[test]
fn a_part_that_starts_at_the_root_replaces_the_base() {
    assert_eq!(join_path("/a/b", "/c"), "/c");
    assert_eq!(join_path("", "/c"), "/c");
    assert_eq!(join_path("/a/b", "/"), "/");
}

#[test]
fn joining_agrees_with_the_paths_of_the_standard_library() {
    let bases = ["", "/", "a", "/a", "a/", "/a/b", "/a/b/", "a//", ".", "..", "/каталог", "a b"];
    let parts = ["", "c", "/c", "c/", "c/d", ".", "..", "файл", "03 - March", "/", "//x"];
    for base in bases {
        for part in parts {
            let expected = std::path::Path::new(base).join(part);
            assert_eq!(join_path(base, part), expected.to_str().unwrap(), "{:?} {:?}", base, part);
        }
    }
}

#[test]
fn a_path_consists_of_its_components() {
    let found = path_parts("/a//b/./c/");
    assert!(found.rooted);
    assert_eq!(found.parts, vec!["a", "b", "c"]);
    let found = path_parts("./a/../b");
    assert!(!found.rooted);
    assert_eq!(found.parts, vec![".", "a", "..", "b"]);
    let found = path_parts("");
    assert!(!found.rooted);
    assert_eq!(found.parts, Vec::<String>::new());
    let found = path_parts("/");
    assert!(found.rooted);
    assert_eq!(found.parts, Vec::<String>::new());
    let found = path_parts("/./каталог/03 - March");
    assert!(found.rooted);
    assert_eq!(found.parts, vec!["каталог", "03 - March"]);
    let found = path_parts(".");
    assert_eq!(found.parts, vec!["."]);
    let found = path_parts("a/.");
    assert_eq!(found.parts, vec!["a"]);
}

#[test]
fn paths_are_the_same_when_their_components_are() {
    assert!(is_same_path("/a/b", "/a/b"));
    assert!(is_same_path("/a/b", "/a/b/"));
    assert!(is_same_path("/a/b", "/a//b"));
    assert!(is_same_path("/a/b", "/a/./b/."));
    assert!(is_same_path("", ""));
    assert!(is_same_path("/", "//"));
    assert!(!is_same_path("/a/b", "a/b"));
    assert!(!is_same_path("/a/b", "/a/B"));
    assert!(!is_same_path("/a/b", "/a/b/c"));
    assert!(!is_same_path("/a/b", "/a"));
    assert!(!is_same_path("a", "./a"));
    assert!(!is_same_path("/a/b", "/a/c/../b"));
    assert!(!is_same_path("", "/"));
    assert!(!is_same_path("", "."));
    assert!(same_parts(&path_parts("x/y"), &path_parts("x//y/")));
    assert!(!same_parts(&path_parts("x/y"), &path_parts("x/z")));
}

#[test]
fn the_file_name_is_the_last_component() {
    assert_eq!(file_name("/a/b/c.txt"), Some("c.txt".to_string()));
    assert_eq!(file_name("c.txt"), Some("c.txt".to_string()));
    assert_eq!(file_name("/a/b/"), Some("b".to_string()));
    assert_eq!(file_name("/a/b/."), Some("b".to_string()));
    assert_eq!(file_name("/a/b//"), Some("b".to_string()));
    assert_eq!(file_name("/a/.hidden"), Some(".hidden".to_string()));
    assert_eq!(file_name("/a/..."), Some("...".to_string()));
    assert_eq!(file_name("/a/b/.."), None);
    assert_eq!(file_name(".."), None);
    assert_eq!(file_name("."), None);
    assert_eq!(file_name("/"), None);
    assert_eq!(file_name(""), None);
}

#[test]
fn components_agree_with_the_paths_of_the_standard_library() {
    let texts = [
        "", "/", "//", ".", "..", "./", "/.", "a", "/a", "a/", "a/b", "/a/b", "/a//b", "/a/./b",
        "/a/b/", "/a/b/.", "./a", "./a/b", "a/..", "/a/../b", "a/./", ".//a", "/./a", "...",
        "/каталог/файл", "/каталог//файл/", "a b/c", ".a", "a.", "/a/b/c/", "//a", "a//",
    ];
    for left in texts {
        let expected = std::path::Path::new(left).file_name().map(|n| n.to_str().unwrap().to_string());
        assert_eq!(file_name(left), expected, "{:?}", left);
        for right in texts {
            let expected = std::path::Path::new(left) == std::path::Path::new(right);
            assert_eq!(is_same_path(left, right), expected, "{:?} {:?}", left, right);
        }
    }
}
