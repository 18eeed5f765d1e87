use open_public::admin_account::{admin_command, password_from_input};
use open_public::content::BatchTranslations;
use open_public::num::{i64_to_string, parse_i64, parse_i8, parse_u16, parse_u64, u64_to_string};
use open_public::pages::compass::{evidence_diverges, Contestant, EvidenceStance};

fn args(a: &[&str]) -> Vec<String> {
    a.iter().map(|s| s.to_string()).collect()
}

#[test]
fn the_create_admin_command_names_an_address() {
    assert_eq!(admin_command(&args(&["create-admin", "a@b.c"])), Some("a@b.c".to_string()));
    assert_eq!(admin_command(&args(&["create-admin"])), None);
    assert_eq!(admin_command(&args(&["serve", "a@b.c"])), None);
    assert_eq!(admin_command(&args(&[])), None);
}

#[test]
fn a_piped_password_loses_only_its_line_ends() {
    assert_eq!(password_from_input("secret pw\r\n"), Some("secret pw".to_string()));
    assert_eq!(password_from_input(" x \n\n"), Some(" x ".to_string()));
    assert_eq!(password_from_input("\n"), None);
    assert_eq!(password_from_input(""), None);
}

#[test]
fn decimal_text_round_trips() {
    for n in [0u64, 7, 10, 12345, u64::MAX] {
        assert_eq!(parse_u64(&u64_to_string(n)), Some(n));
    }
    for n in [0i64, -1, 42, i64::MIN, i64::MAX] {
        assert_eq!(parse_i64(&i64_to_string(n)), Some(n));
    }
    assert_eq!(u64_to_string(1000), "1000");
    assert_eq!(i64_to_string(-5), "-5");
    assert_eq!(parse_u16("65535"), Some(65535));
    assert_eq!(parse_u16("65536"), None);
    assert_eq!(parse_i8("-128"), Some(-128));
    assert_eq!(parse_i8("+3"), Some(3));
    assert_eq!(parse_i8(""), None);
    assert_eq!(parse_i8("1 "), None);
}

#[test]
fn pledge_and_record_disagreeing_is_marked() {
    let e = |t, c, s| EvidenceStance { thesis_id: t, contestant_id: c, stance: s };
    let ev = vec![e(1, 1, 2), e(1, 1, -1), e(1, 2, 1), e(2, 2, -2), e(1, 3, 0)];
    assert!(evidence_diverges(&ev, 1, 1));
    assert!(!evidence_diverges(&ev, 1, 2));
    assert!(!evidence_diverges(&ev, 2, 2));
    assert!(!evidence_diverges(&ev, 1, 3));
}

#[test]
fn contestants_link_to_their_pages() {
    let p = Contestant::from_party("Labour Party", None, Some("#e4003b".to_string()), "labour", "uk");
    assert_eq!(p.short, "Labour Party");
    assert_eq!(p.href, "/uk/parties/labour");
    let q = Contestant::from_party("Labour Party", Some("Lab"), None, "labour", "uk");
    assert_eq!(q.short, "Lab");
    let r = Contestant::from_person("Jo Doe", "JD", "jo-doe", "uk");
    assert_eq!(r.href, "/uk/people/jo-doe");
    assert!(r.colour.is_none());
}

#[test]
fn list_translations_are_looked_up_per_item_and_field() {
    let t = BatchTranslations {
        entries: vec![
            (1, "label".to_string(), "Evet".to_string()),
            (2, "label".to_string(), "Hayır".to_string()),
            (1, "label".to_string(), "Olur".to_string()),
        ],
    };
    assert_eq!(t.get(1, "label"), Some("Olur"));
    assert_eq!(t.get(2, "label"), Some("Hayır"));
    assert_eq!(t.get(2, "question"), None);
    assert_eq!(t.get(3, "label"), None);
}
