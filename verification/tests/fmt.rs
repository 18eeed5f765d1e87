use open_public::fmt::{date, date_naive, date_range, Date};
use open_public::i18n::{Lang, Translations};

fn d(y: i32, m: u32, day: u32) -> Date {
    Date { year: y, month: m, day }
}

/// The Turkish catalog's entry for the range's open end.
fn turkish() -> Translations {
    Translations::parse("msgid \"present\"\nmsgstr \"günümüz\"\n", "", "")
}

// The deployment default locale is Turkish, so months and "present" are Turkish.
#[test]
fn date_formats_or_question_mark() {
    assert_eq!(date(None, Lang::Tr), "?");
    assert_eq!(date(Some(d(2020, 6, 12)), Lang::Tr), "12 Haz 2020");
}

#[test]
fn date_range_covers_every_case() {
    let tr = turkish();
    assert_eq!(
        date_range(Some(d(2019, 1, 1)), Some(d(2023, 3, 4)), Lang::Tr, &tr),
        "01 Oca 2019 - 04 Mar 2023"
    );
    assert!(date_range(Some(d(2019, 1, 1)), None, Lang::Tr, &tr).ends_with(" - günümüz"));
    assert!(date_range(None, Some(d(2023, 1, 1)), Lang::Tr, &tr).starts_with("? - "));
    assert_eq!(date_range(None, None, Lang::Tr, &tr), "?");
}

#[test]
fn dates_in_other_languages() {
    assert_eq!(date_naive(d(1999, 12, 31), Lang::En), "31 Dec 1999");
    assert_eq!(date_naive(d(-44, 3, 15), Lang::De), "15 Mär -44");
    let none = Translations::parse("", "", "");
    assert_eq!(
        date_range(Some(d(2001, 2, 3)), None, Lang::En, &none),
        "03 Feb 2001 - present"
    );
}
