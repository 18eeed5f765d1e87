use open_public::i18n::{current, lang_code, month_abbr, request_url, resolve, t, t_dyn, Catalog, Lang, Translations};

#[test]
fn resolve_prefers_cookie_then_accept_language() {
    let default = Lang::Tr;
    // An explicit cookie wins over the browser preference.
    assert_eq!(resolve(Some("en"), Some("tr"), default), Lang::En);
    assert_eq!(resolve(Some("tr"), Some("en"), default), Lang::Tr);
    // An unknown cookie is ignored; the header decides.
    assert_eq!(resolve(Some("xx"), Some("tr"), default), Lang::Tr);
    // The first supported tag in Accept-Language is chosen, region stripped.
    assert_eq!(resolve(None, Some("tr-TR,tr;q=0.9,en;q=0.8"), default), Lang::Tr);
    assert_eq!(resolve(None, Some("de-DE,de;q=0.9,en;q=0.8"), default), Lang::De);
    assert_eq!(resolve(None, Some("fr-FR,fr;q=0.9,en;q=0.8"), default), Lang::Fr);
    // An unsupported first tag is skipped; the next supported one wins.
    assert_eq!(resolve(None, Some("es-ES,es;q=0.9,en;q=0.8"), default), Lang::En);
}

#[test]
fn resolve_falls_back_to_the_deployment_default() {
    assert_eq!(resolve(None, None, Lang::Tr), Lang::Tr);
    assert_eq!(resolve(Some("xx"), Some("es, it"), Lang::De), Lang::De);
    assert_eq!(resolve(None, Some(" fr_CA ; q=1"), Lang::En), Lang::Fr);
}

#[test]
fn translates_and_falls_back() {
    let po = r#"
msgid ""
msgstr "Content-Type: text/plain; charset=UTF-8\n"

msgid "Hello"
msgstr "Merhaba"

msgid "Untranslated"
msgstr ""
"#;
    let cat = Catalog::parse(po);
    assert_eq!(cat.get("Hello"), "Merhaba");
    // empty msgstr -> falls back to the source string
    assert_eq!(cat.get("Untranslated"), "Untranslated");
    // unknown key -> falls back to itself
    assert_eq!(cat.get("Missing"), "Missing");
}

#[test]
fn skips_header_entry() {
    let cat = Catalog::parse("msgid \"\"\nmsgstr \"Language: tr\\n\"\n");
    assert_eq!(cat.get(""), "");
}

#[test]
fn joins_multiline_and_unescapes() {
    let po = "msgid \"a\"\nmsgstr \"\"\n\"line one\\n\"\n\"line \\\"two\\\"\"\n";
    let cat = Catalog::parse(po);
    assert_eq!(cat.get("a"), "line one\nline \"two\"");
}

#[test]
fn joins_a_multiline_msgid() {
    // A msgid split across continuation lines is reassembled.
    let po = "msgid \"\"\n\"first \"\n\"second\"\nmsgstr \"birinci ikinci\"\n";
    let cat = Catalog::parse(po);
    assert_eq!(cat.get("first second"), "birinci ikinci");
}

#[test]
fn ignores_msgctxt_and_other_keywords() {
    // A keyword we do not track (msgctxt, msgid_plural) resets parsing, and
    // any quoted line that follows it before a msgid/msgstr is dropped
    // rather than misattributed.
    let po = "msgctxt \"menu\"\n\"stray continuation\"\nmsgid \"Home\"\nmsgstr \"Ana sayfa\"\n";
    let cat = Catalog::parse(po);
    assert_eq!(cat.get("Home"), "Ana sayfa");
    assert_eq!(cat.get("menu"), "menu"); // never stored as a key
}

#[test]
fn unescapes_every_supported_sequence() {
    // \t \r \\ a literal backslash-escaped other char, and a lone trailing
    // backslash (which is dropped).
    let po = "msgid \"k\"\nmsgstr \"a\\tb\\rc\\\\d\\qe\"\n";
    let cat = Catalog::parse(po);
    assert_eq!(cat.get("k"), "a\tb\rc\\dqe");
}

#[test]
fn drops_a_dangling_trailing_backslash() {
    // A backslash with no following character is dropped rather than
    // panicking.
    let po = "msgid \"z\"\nmsgstr \"x\\\"\n";
    let cat = Catalog::parse(po);
    assert_eq!(cat.get("z"), "x");
}

#[test]
fn english_is_the_identity_locale() {
    let tr = Translations::parse("", "", "");
    // The source locale returns msgids unchanged and reports its own code.
    assert_eq!(Lang::En.code(), "en");
    assert_eq!(Lang::En.t(&tr, "Anything"), "Anything");
    assert_eq!(Lang::from_code("en"), Lang::En);
    assert_eq!(Lang::from_code("zz"), Lang::En); // unknown falls back
    assert_eq!(Lang::from_code("tr"), Lang::Tr);
}

#[test]
fn each_language_translates_from_its_own_catalog() {
    let tr = Translations::parse(
        "msgid \"Home\"\nmsgstr \"Ana sayfa\"\n",
        "msgid \"Home\"\nmsgstr \"Startseite\"\n",
        "msgid \"Home\"\nmsgstr \"Accueil\"\n",
    );
    assert_eq!(t(Lang::Tr, &tr, "Home"), "Ana sayfa");
    assert_eq!(t(Lang::De, &tr, "Home"), "Startseite");
    assert_eq!(t(Lang::Fr, &tr, "Home"), "Accueil");
    assert_eq!(t(Lang::En, &tr, "Home"), "Home");
    assert_eq!(t_dyn(Lang::Tr, &tr, "Other"), "Other");
}

#[test]
fn codes_labels_and_months() {
    for l in Lang::all() {
        assert_eq!(Lang::from_code(l.code()), l);
        assert_eq!(Lang::known(l.code()), Some(l));
        assert!(l.is_active(l));
    }
    assert_eq!(lang_code(Lang::De), "de");
    assert_eq!(Lang::known("xx"), None);
    assert_eq!(month_abbr(Lang::Tr, 6), "Haz");
    assert_eq!(month_abbr(Lang::En, 1), "Jan");
    assert_eq!(month_abbr(Lang::Fr, 12), "déc.");
    // Months outside 1..=12 are clamped.
    assert_eq!(month_abbr(Lang::En, 0), "Jan");
    assert_eq!(month_abbr(Lang::De, 13), "Dez");
}

#[test]
fn request_url_is_omitted_when_unknown() {
    assert_eq!(request_url(None), None);
    assert_eq!(request_url(Some(String::new())), None);
    assert_eq!(
        request_url(Some("https://x.test/a".to_string())),
        Some("https://x.test/a".to_string())
    );
}

#[test]
fn the_active_language_outside_a_request_is_the_default() {
    assert_eq!(current(Some(Lang::Fr), Lang::Tr), Lang::Fr);
    assert_eq!(current(None, Lang::Tr), Lang::Tr);
}
