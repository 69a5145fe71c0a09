use otp_auth::directory::find;
use otp_auth::directory::parse;
use otp_auth::directory::parse_line;
use otp_auth::directory::UserRecord;
use otp_auth::text::chars_of;

fn record(name: &str, login: &str, key: &str, epoch: &str) -> UserRecord {
    UserRecord {
        name: name.to_string(),
        login: login.to_string(),
        key: key.to_string(),
        epoch: epoch.to_string(),
    }
}

#[test]
fn each_line_of_five_fields_is_a_record() {
    let text = "Лапин_Е.В. Johnny AE23e2d76510bf24 06.05.2007 21:24:30\nМатюшенко_Н.В. mtkolya ED7240deba345612 14.12.1985 18:00:00";
    assert_eq!(
        parse(text),
        vec![
            record("Лапин_Е.В.", "Johnny", "AE23E2D76510BF24", "06.05.2007 21:24:30"),
            record("Матюшенко_Н.В.", "mtkolya", "ED7240DEBA345612", "14.12.1985 18:00:00"),
        ]
    );
}

#[test]
fn lines_with_fewer_than_five_fields_are_dropped() {
    let text = "\n\
        a alice AAAA000000000001 01.01.2000 00:00:00\n\
        only four fields here\n\
        \n\
        b bob AAAA000000000002 02.01.2000 00:00:00\n\
        x\n\
        \t \n\
        c carol AAAA000000000003 03.01.2000\n\
        d dave AAAA000000000004 04.01.2000 00:00:00\n";
    let users = parse(text);
    let logins: Vec<&str> = users.iter().map(|u| u.login.as_str()).collect();
    assert_eq!(logins, vec!["alice", "bob", "dave"]);
}

#[test]
fn records_keep_the_order_of_their_lines() {
    let mut text = String::new();
    let mut expected = Vec::new();
    for i in 0..50 {
        text.push_str(&format!("name{} user{} {:016x} 01.01.2000 00:00:{:02}\n", i, i, i, i));
        if i % 3 == 0 {
            text.push_str("a line of junk\n");
        }
        expected.push(record(
            &format!("name{}", i),
            &format!("user{}", i),
            &format!("{:016X}", i),
            &format!("01.01.2000 00:00:{:02}", i),
        ));
    }
    assert_eq!(parse(&text), expected);
}

#[test]
fn fields_may_stand_between_any_whitespace() {
    let text = "  n1\tu1   aaaa000000000001 \t 01.01.2000\u{00A0}10:00:00  \r\nn2 u2 bbbb000000000002 02.01.2000 11:00:00\r\n";
    assert_eq!(
        parse(text),
        vec![
            record("n1", "u1", "AAAA000000000001", "01.01.2000 10:00:00"),
            record("n2", "u2", "BBBB000000000002", "02.01.2000 11:00:00"),
        ]
    );
}

#[test]
fn fields_after_the_fifth_are_not_read() {
    assert_eq!(
        parse("n u kkkk 01.01.2000 10:00:00 more and more"),
        vec![record("n", "u", "KKKK", "01.01.2000 10:00:00")]
    );
}

#[test]
fn text_without_records_gives_an_empty_directory() {
    assert_eq!(parse(""), vec![]);
    assert_eq!(parse("\n\n\n"), vec![]);
    assert_eq!(parse("one two three four"), vec![]);
    assert_eq!(parse("one two\nthree four five"), vec![]);
}

#[test]
fn a_record_does_not_run_over_lines() {
    assert_eq!(parse("n u k 01.01.2000\n10:00:00"), vec![]);
}

#[test]
fn one_line_gives_one_record_or_none() {
    assert_eq!(
        parse_line(&chars_of("n u abc 01.01.2000 10:00:00")),
        Some(record("n", "u", "ABC", "01.01.2000 10:00:00"))
    );
    assert_eq!(parse_line(&chars_of("n u abc 01.01.2000")), None);
    assert_eq!(parse_line(&chars_of("")), None);
}

#[test]
fn parsing_twice_gives_the_same_directory() {
    let text = "n1 u1 k1 d1 t1\nn2 u2 k2 d2 t2\n";
    assert_eq!(parse(text), parse(text));
    assert_eq!(parse(text).len(), 2);
}

#[test]
fn the_first_record_with_the_login_is_found() {
    let users = vec![
        record("first", "alice", "AAAA000000000001", "01.01.2000 00:00:00"),
        record("second", "bob", "AAAA000000000002", "01.01.2000 00:00:00"),
        record("third", "alice", "AAAA000000000003", "01.01.2000 00:00:00"),
    ];
    assert_eq!(find(&users, "alice"), Some(0));
    assert_eq!(find(&users, "bob"), Some(1));
    assert_eq!(find(&users, "carol"), None);
    assert_eq!(find(&users, "Alice"), None);
    assert_eq!(find(&users, "alice "), None);
    assert_eq!(find(&users, ""), None);
    assert_eq!(find(&vec![], "alice"), None);
}

fn read_line_by_line(text: &str) -> Vec<UserRecord> {
    let mut users = Vec::new();
    for line in text.lines() {
        let line = line.trim();
        if line.is_empty() {
            continue;
        }
        let parts: Vec<&str> = line.split_whitespace().collect();
        if parts.len() >= 5 {
            users.push(record(
                parts[0],
                parts[1],
                &parts[2].to_ascii_uppercase(),
                &format!("{} {}", parts[3], parts[4]),
            ));
        }
    }
    users
}

#[test]
fn directory_is_what_reading_line_by_line_gives() {
    for text in [
        "",
        "\n",
        "\r\n",
        "a b c d e",
        "a b c d e\n",
        "a b c d e\r\n",
        "a b c d e\r",
        "a b c d\re",
        "a b c d\u{000B}e\u{000C}f",
        "a b c d\u{2028}e",
        "a b c d\u{0085}e f g",
        "\u{3000}a\u{3000}b\u{3000}c\u{3000}d\u{3000}e\u{3000}",
        "a b c d e\n\nf g h i j\n   \nk l m n\no p q r s t u\n",
        "a b c d e\rf g h i j",
        "a  b\tc   d e\n\n\n\nf g h i j\r\n\r\nk l m n o",
        "Лапин_Е.В. Johnny AE23e2d76510bf24 06.05.2007 21:24:30\nМатюшенко_Н.В. mtkolya ED7240deba345612 14.12.1985 18:00:00",
    ] {
        assert_eq!(parse(text), read_line_by_line(text), "{:?}", text);
    }
}

#[test]
fn directory_of_joined_texts_is_the_directories_joined() {
    let texts = [
        "",
        "a b c d e",
        "junk",
        "a b c d e\nf g h i j",
        "x y z\n\nk l m n o\n",
        "only\nshort\nlines",
    ];
    for first in texts {
        for second in texts {
            let mut expected = parse(first);
            expected.extend(parse(second));
            assert_eq!(parse(&format!("{}\n{}", first, second)), expected);
        }
    }
}
