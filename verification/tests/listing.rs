use regex::Regex;
use tfswitch::args::Args;
use tfswitch::listing::{capture_terraform_versions, find_version};

const LINES: &str = "<html><head>
        <title>Terraform Versions | HashiCorp Releases</title>

    </head>
    <body>
        <ul>
            <li>
            <a href=\"../\">../</a>
            </li>
            <li>
            <a href=\"/terraform/1.3.0/\">terraform_1.3.0</a>
            </li>
            <li>
            <a href=\"/terraform/1.3.0-rc1/\">terraform_1.3.0-rc1</a>
            </li>
            <li>
            <a href=\"/terraform/1.3.0-beta1/\">terraform_1.3.0-beta1</a>
            </li>
            <li>
            <a href=\"/terraform/1.3.0-alpha20220608/\">terraform_1.3.0-alpha20220608</a>
            </li>
            <li>
            <a href=\"/terraform/1.2.0/\">terraform_1.2.0</a>
            </li>
            <li>
            <a href=\"/terraform/1.2.0-rc1/\">terraform_1.2.0-rc1</a>
            </li>
            <li>
            <a href=\"/terraform/1.2.0-beta1/\">terraform_1.2.0-beta1</a>
            </li>
            <li>
            <a href=\"/terraform/1.2.0-alpha20220413/\">terraform_1.2.0-alpha20220413</a>
            </li>
            <li>
            <a href=\"/terraform/1.2.0-alpha-20220328/\">terraform_1.2.0-alpha-20220328</a>
            </li>
            <li>
            <a href=\"/terraform/1.1.0/\">terraform_1.1.0</a>
            </li>
            <li>
            <a href=\"/terraform/1.1.0-rc1/\">terraform_1.1.0-rc1</a>
            </li>
            <li>
            <a href=\"/terraform/1.1.0-beta1/\">terraform_1.1.0-beta1</a>
            </li>
            <li>
            <a href=\"/terraform/1.1.0-alpha20211029/\">terraform_1.1.0-alpha20211029</a>
            </li>
            <li>
            <a href=\"/terraform/1.0.0/\">terraform_1.0.0</a>
            </li>
            <li>
            <a href=\"/terraform/0.15.0/\">terraform_0.15.0</a>
            </li>
            <li>
            <a href=\"/terraform/0.15.0-rc1/\">terraform_0.15.0-rc1</a>
            </li>
            <li>
            <a href=\"/terraform/0.15.0-beta1/\">terraform_0.15.0-beta1</a>
            </li>
            <li>
            <a href=\"/terraform/0.15.0-alpha20210107/\">terraform_0.15.0-alpha20210107</a>
            </li>
            
        </ul>

</body></html>";

fn strict(contents: &str) -> Vec<String> {
    capture_terraform_versions(
        Args {
            list_all: false,
            version: None,
        },
        contents,
    )
}

fn inclusive(contents: &str) -> Vec<String> {
    capture_terraform_versions(
        Args {
            list_all: true,
            version: None,
        },
        contents,
    )
}

/// The pattern of a listing mode, for a regular-expression engine.
fn pattern(list_all: bool) -> Regex {
    if list_all {
        Regex::new(r#"/(\d+\.\d+\.\d+)(?:-[a-zA-Z0-9-]+)?/""#).unwrap()
    } else {
        Regex::new(r#"/(\d+\.\d+\.\d+)/""#).unwrap()
    }
}

/// The listing as a pattern gives it when a regular-expression engine runs
/// it line by line.
fn by_pattern(re: &Regex, contents: &str) -> Vec<String> {
    let trim: &[char] = &['/', '"'];
    let mut versions = vec![];
    for line in contents.split('\n') {
        if let Some(found) = re.find(line) {
            versions.push(found.as_str().trim_matches(trim).to_string());
        }
    }
    versions
}

#[test]
fn test_capture_terraform_versions() {
    let expected_versions = vec!["1.3.0", "1.2.0", "1.1.0", "1.0.0", "0.15.0"];
    let args = Args {
        list_all: false,
        version: None,
    };
    let actual_versions = capture_terraform_versions(args, LINES);

    assert_eq!(expected_versions, actual_versions);
}

#[test]
fn test_capture_terraform_versions_list_all() {
    let expected_versions = vec![
        "1.3.0",
        "1.3.0-rc1",
        "1.3.0-beta1",
        "1.3.0-alpha20220608",
        "1.2.0",
        "1.2.0-rc1",
        "1.2.0-beta1",
        "1.2.0-alpha20220413",
        "1.2.0-alpha-20220328",
        "1.1.0",
        "1.1.0-rc1",
        "1.1.0-beta1",
        "1.1.0-alpha20211029",
        "1.0.0",
        "0.15.0",
        "0.15.0-rc1",
        "0.15.0-beta1",
        "0.15.0-alpha20210107",
    ];
    let args = Args {
        list_all: true,
        version: None,
    };
    let actual_versions = capture_terraform_versions(args, LINES);

    assert_eq!(expected_versions, actual_versions);
}

#[test]
fn strict_listing_has_no_prerelease_entry() {
    for version in strict(LINES) {
        assert!(!version.contains('-'), "{version}");
    }
    assert_eq!(strict("<a href=\"/terraform/1.3.0-rc1/\">"), Vec::<String>::new());
}

#[test]
fn inclusive_listing_holds_every_strict_entry() {
    let all = inclusive(LINES);
    for version in strict(LINES) {
        assert!(all.contains(&version), "{version}");
    }
    assert!(strict(LINES).len() <= all.len());
}

#[test]
fn prerelease_ahead_of_release_hides_it() {
    let line = "/1.0.0-rc1/\" /2.0.0/\"";
    assert_eq!(strict(line), vec!["2.0.0"]);
    assert_eq!(inclusive(line), vec!["1.0.0-rc1"]);
}

#[test]
fn empty_index_lists_nothing() {
    assert_eq!(strict(""), Vec::<String>::new());
    assert_eq!(inclusive(""), Vec::<String>::new());
    assert_eq!(strict("\n\n\n"), Vec::<String>::new());
}

#[test]
fn lines_without_a_version_are_passed_over() {
    let text = "nothing here\n<a href=\"/terraform/1.2.3/\">\nnor here\n\"/4.5.6/\"\n";
    assert_eq!(strict(text), vec!["1.2.3", "4.5.6"]);
}

#[test]
fn a_segment_is_opened_by_a_slash_and_closed_by_slash_and_quote() {
    assert_eq!(strict("/1.2.3/\""), vec!["1.2.3"]);
    assert_eq!(inclusive("/1.2.3-rc1/\""), vec!["1.2.3-rc1"]);
    assert_eq!(strict("/1.2.3\""), Vec::<String>::new());
    assert_eq!(inclusive("/1.2.3-rc1\""), Vec::<String>::new());
    assert_eq!(strict("/1.2.3//\""), Vec::<String>::new());
    assert_eq!(strict("/1.2.3/"), Vec::<String>::new());
    assert_eq!(strict("/1.2.3/'"), Vec::<String>::new());
    assert_eq!(strict("1.2.3/\""), Vec::<String>::new());
    assert_eq!(strict("\\1.2.3/\""), Vec::<String>::new());
}

#[test]
fn one_version_per_line_and_it_is_the_leftmost() {
    assert_eq!(strict("/1.0.0/\" /2.0.0/\""), vec!["1.0.0"]);
    assert_eq!(strict("/1.0.0/\"\n/2.0.0/\""), vec!["1.0.0", "2.0.0"]);
    assert_eq!(strict("/1.0/\" /x/7.8.9/\""), vec!["7.8.9"]);
}

#[test]
fn order_and_repeats_are_kept() {
    let text = "/0.1.0/\"\n/3.0.0/\"\n/0.1.0/\"\n/2.0.0/\"";
    assert_eq!(strict(text), vec!["0.1.0", "3.0.0", "0.1.0", "2.0.0"]);
}

#[test]
fn a_version_needs_three_numbers() {
    assert_eq!(strict("/1.2/\""), Vec::<String>::new());
    assert_eq!(strict("/1.2./\""), Vec::<String>::new());
    assert_eq!(strict("/.1.2/\""), Vec::<String>::new());
    assert_eq!(strict("/1..2/\""), Vec::<String>::new());
    assert_eq!(strict("/1.2.3.4/\""), Vec::<String>::new());
    assert_eq!(strict("/a.b.c/\""), Vec::<String>::new());
    assert_eq!(strict("/10.200.3000/\""), vec!["10.200.3000"]);
    assert_eq!(strict("/007.08.09/\""), vec!["007.08.09"]);
}

#[test]
fn a_tag_holds_letters_digits_and_hyphens() {
    assert_eq!(inclusive("/1.2.3-alpha-20220328/\""), vec!["1.2.3-alpha-20220328"]);
    assert_eq!(inclusive("/1.2.3--/\""), vec!["1.2.3--"]);
    assert_eq!(inclusive("/1.2.3-/\""), Vec::<String>::new());
    assert_eq!(inclusive("/1.2.3-rc_1/\""), Vec::<String>::new());
    assert_eq!(inclusive("/1.2.3-rc.1/\""), Vec::<String>::new());
    assert_eq!(inclusive("/1.2.3+build/\""), Vec::<String>::new());
    assert_eq!(inclusive("/1.2.3-RC1/\""), vec!["1.2.3-RC1"]);
}

#[test]
fn carriage_returns_stay_in_the_line() {
    assert_eq!(strict("/1.2.3/\"\r\n/4.5.6/\"\r\n"), vec!["1.2.3", "4.5.6"]);
    assert_eq!(strict("/1.2.3\r/\""), Vec::<String>::new());
}

#[test]
fn text_beyond_ascii_is_read_by_character() {
    assert_eq!(strict("é→/1.2.3/\"…"), vec!["1.2.3"]);
    assert_eq!(inclusive("/1.2.3-rcé/\""), Vec::<String>::new());
}

#[test]
fn numbers_are_written_with_the_digits_zero_to_nine() {
    assert_eq!(strict("/١.٢.٣/\""), Vec::<String>::new());
    assert_eq!(inclusive("/１.２.３-rc1/\""), Vec::<String>::new());
    assert_eq!(strict("/0123456789.0.9/\""), vec!["0123456789.0.9"]);
}

#[test]
fn find_version_gives_the_first_of_a_line() {
    let line: Vec<char> = "<a href=\"/terraform/1.3.0-rc1/\">/9.9.9/\"".chars().collect();
    assert_eq!(find_version(&line, true), Some("1.3.0-rc1".to_string()));
    assert_eq!(find_version(&line, false), Some("9.9.9".to_string()));
    let none: Vec<char> = "terraform_1.3.0".chars().collect();
    assert_eq!(find_version(&none, true), None);
    assert_eq!(find_version(&Vec::new(), false), None);
}

#[test]
fn listing_agrees_with_the_patterns_on_the_sample() {
    assert_eq!(strict(LINES), by_pattern(&pattern(false), LINES));
    assert_eq!(inclusive(LINES), by_pattern(&pattern(true), LINES));
}

#[test]
fn listing_agrees_with_the_patterns_on_odd_lines() {
    let lines = [
        "",
        "/",
        "\"",
        "/\"",
        "//\"",
        "/1.2.3",
        "/1.2.3\"",
        "/1.2.3/\"",
        "/1.2.3//\"",
        "//1.2.3/\"",
        "/1.2.3/\"/4.5.6/\"",
        "/1.2.3-rc1/\" /4.5.6/\"",
        "/1.2.3-/\" /4.5.6-b/\"",
        "/1.2.3-/4.5.6/\"",
        "/1.2.3-a/4.5.6\"",
        "/1.2/3.4.5\"",
        "/1.2.3.4.5/\"",
        "/1.2.3-4.5.6/\"",
        "/1.2.3-4-5-6/\"",
        "/1.2.3---\"",
        "/1.2.3-a\"b",
        "/1.2.3-a/\"/",
        "/01.02.03\"",
        "/1.2.3 /\"",
        "x/1.2.3/\"x/1.2.3-rc/\"",
        "/1.2.3-rc1-/\"",
        "/1.2.3-rc1/ \"",
        "/1.2.3/-rc1\"",
        "/1./2.3.4-x\"",
        "/1.2.3-x/1.2.3\"",
    ];
    let (without, with) = (pattern(false), pattern(true));
    for line in lines {
        assert_eq!(strict(line), by_pattern(&without, line), "{line:?}");
        assert_eq!(inclusive(line), by_pattern(&with, line), "{line:?}");
    }
    let text = lines.join("\n");
    assert_eq!(strict(&text), by_pattern(&without, &text));
    assert_eq!(inclusive(&text), by_pattern(&with, &text));
}

/// The next number of a fixed pseudo-random series.
fn next(state: &mut u64) -> usize {
    *state ^= *state << 13;
    *state ^= *state >> 7;
    *state ^= *state << 17;
    (*state >> 8) as usize
}

#[test]
fn listing_agrees_with_the_patterns_on_generated_lines() {
    let (without, with) = (pattern(false), pattern(true));
    let pieces = [
        "/", "\"", "/\"", "1", "20", "003", ".", "-", "rc1", "alpha-2", "A", "_", " ", "/1.2.3",
        "4.5.6", "-beta", "x",
    ];
    let mut state: u64 = 0x2545_f491_4f6c_dd1d;
    let mut listed = 0;
    for _ in 0..3000 {
        let mut line = String::new();
        let count = 1 + next(&mut state) % 9;
        for _ in 0..count {
            line.push_str(pieces[next(&mut state) % pieces.len()]);
        }
        let expected = by_pattern(&without, &line);
        listed += expected.len();
        assert_eq!(strict(&line), expected, "{line:?}");
        let expected = by_pattern(&with, &line);
        listed += expected.len();
        assert_eq!(inclusive(&line), expected, "{line:?}");
    }
    assert!(listed > 100, "{listed}");
}
