use open_public::auth::AuthSession;
use open_public::error::PageError;
use open_public::i18n::{Lang, Translations};
use open_public::pages::admin::{
    person_manage_path, require_admin, CountryQuery, DraftAction, EducationForm, LinkForm,
    LinkTarget, NewsFieldsForm, NewsForm, RejectForm, SummaryForm, UnlinkForm,
};
use open_public::pages::approve::{entity, CastForm, Entity, Position};
use open_public::pages::auth::{
    login_decision, registration_reply, sign_in, Credentials, LoginAccount, LoginRefusal, Registration,
    RegistrationProblem,
};
use open_public::pages::compass::{kind_label as evidence_kind, read_answers, scale, value_label};
use open_public::pages::discovery::{robots_body, sitemap_body, sitemap_urls, CountryPages};
use open_public::pages::elections::kind_label as election_kind;
use open_public::pages::feed::kind_label as feed_kind;
use open_public::pages::follow::ToggleForm;
use open_public::pages::outlets::Page;
use open_public::pages::people::page_window;
use open_public::pages::polls::kind_label as poll_kind;
use open_public::pages::submit::{check_submission, status_label, PendingOption, SubmissionProblem};

fn none() -> Translations {
    Translations::parse("", "", "")
}

fn pairs(p: &[(&str, &str)]) -> Vec<(String, String)> {
    p.iter().map(|(k, v)| (k.to_string(), v.to_string())).collect()
}

#[test]
fn admin_pages_are_invisible_to_everyone_else() {
    let admin = AuthSession { user_id: 1, is_admin: true, session_id: 1 };
    let user = AuthSession { user_id: 2, is_admin: false, session_id: 2 };
    assert!(require_admin(&Some(admin)).is_ok());
    assert_eq!(require_admin(&Some(user)), Err(PageError::NotFound));
    assert_eq!(require_admin(&None), Err(PageError::NotFound));
}

#[test]
fn errors_send_their_status_and_say_nothing_of_the_cause() {
    assert_eq!(PageError::NotFound.status(), 404);
    assert_eq!(PageError::Server.status(), 500);
    assert_eq!(PageError::NotFound.code_text(), "404");
    let m = PageError::Server.message().to_lowercase();
    assert!(!m.contains("sql") && !m.contains("database"));
}

#[test]
fn labels_in_english_and_fallbacks() {
    let tr = none();
    assert_eq!(poll_kind("multi", Lang::En, &tr), "Multiple choice");
    assert_eq!(poll_kind("weird", Lang::En, &tr), "Single choice");
    assert_eq!(feed_kind("election", Lang::En, &tr), "Election");
    assert_eq!(feed_kind("x", Lang::En, &tr), "News");
    assert_eq!(election_kind(Some("local"), Lang::En, &tr), "Local");
    assert_eq!(election_kind(None, Lang::En, &tr), "Parliamentary");
    assert_eq!(evidence_kind("court", Lang::En, &tr), "Court application");
    assert_eq!(evidence_kind("", Lang::En, &tr), "Manifesto");
    assert_eq!(status_label("pending_admin", Lang::En, &tr), "Under review");
    assert_eq!(status_label("approved", Lang::En, &tr), "Published");
    assert_eq!(status_label("rejected", Lang::En, &tr), "Not accepted");
    let german = Translations::parse("", "msgid \"Vote\"\nmsgstr \"Abstimmung\"\n", "");
    assert_eq!(evidence_kind("vote", Lang::De, &german), "Abstimmung");
}

#[test]
fn the_compass_scale_runs_from_strongly_disagree_to_strongly_agree() {
    let tr = none();
    let s = scale(Lang::En, &tr);
    assert_eq!(
        s,
        vec![
            (-2, "Strongly disagree"),
            (-1, "Disagree"),
            (0, "Neutral"),
            (1, "Agree"),
            (2, "Strongly agree"),
        ]
    );
    assert_eq!(value_label(1, Lang::En, &tr), "Agree");
    assert_eq!(value_label(3, Lang::En, &tr), "");
}

#[test]
fn compass_answers_are_read_per_position() {
    let form = pairs(&[
        ("a1", "2"),
        ("w1", "on"),
        ("a2", "skip"),
        ("a3", "-1"),
        ("a4", "5"),
        ("a3", "0"),
        ("a-7", "1"),
    ]);
    let answers = read_answers(&vec![1, 2, 3, 4, 5, -7], &form);
    let got: Vec<(i64, i8, bool)> = answers
        .iter()
        .map(|a| (a.thesis_id, a.value, a.important))
        .collect();
    // A later field wins, values off the scale and "skip" count as no answer.
    assert_eq!(got, vec![(1, 2, true), (3, 0, false), (-7, 1, false)]);
}

#[test]
fn robots_and_sitemap() {
    assert_eq!(robots_body(true, "https://x.test"), "User-agent: *\nDisallow: /\n");
    assert_eq!(
        robots_body(false, ""),
        "User-agent: *\nDisallow: /admin\nDisallow: /login\nDisallow: /register\nDisallow: /verify\nDisallow: /reset\nDisallow: /forgot\nAllow: /\n"
    );
    assert!(robots_body(false, "https://x.test").ends_with("Allow: /\n\nSitemap: https://x.test/sitemap.xml\n"));
    let map = sitemap_body(&vec!["https://x.test/a?b=1&c=2".to_string()]);
    assert_eq!(
        map,
        "<?xml version=\"1.0\" encoding=\"UTF-8\"?>\n<urlset xmlns=\"http://www.sitemaps.org/schemas/sitemap/0.9\">\n  <url><loc>https://x.test/a?b=1&amp;c=2</loc></url>\n</urlset>\n"
    );
}

#[test]
fn sitemap_lists_home_privacy_then_each_country() {
    let v = |xs: &[&str]| xs.iter().map(|s| s.to_string()).collect::<Vec<String>>();
    let uk = CountryPages {
        slug: "uk".to_string(),
        people: v(&["ann-lee"]),
        parties: v(&["greens", "reds"]),
        elections: v(&[]),
        alliances: v(&["left"]),
    };
    let urls = sitemap_urls("https://x.test", &vec![uk]);
    assert_eq!(
        urls,
        v(&[
            "https://x.test",
            "https://x.test/privacy",
            "https://x.test/uk",
            "https://x.test/uk/people",
            "https://x.test/uk/parties",
            "https://x.test/uk/alliances",
            "https://x.test/uk/elections",
            "https://x.test/uk/polls",
            "https://x.test/uk/news",
            "https://x.test/uk/outlets",
            "https://x.test/uk/history",
            "https://x.test/uk/compass",
            "https://x.test/uk/people/ann-lee",
            "https://x.test/uk/parties/greens",
            "https://x.test/uk/parties/reds",
            "https://x.test/uk/alliance/left",
        ])
    );
    assert_eq!(sitemap_urls("o", &vec![]), v(&["o", "o/privacy"]));
}

#[test]
fn a_sitemap_is_cut_at_the_protocol_limit() {
    let urls: Vec<String> = (0..50_001).map(|i| format!("u{i}")).collect();
    let map = sitemap_body(&urls);
    assert_eq!(map.matches("<url>").count(), 50_000);
    assert!(!map.contains("<loc>u50000</loc>"));
}

#[test]
fn return_paths_never_leave_the_site() {
    let t = |n: Option<&str>| ToggleForm { next: n.map(str::to_string) }.return_path();
    assert_eq!(t(Some("/uk/people")), "/uk/people");
    assert_eq!(t(Some("//evil.test")), "/");
    assert_eq!(t(Some("https://evil.test")), "/");
    assert_eq!(t(None), "/");
    let c = |n: Option<&str>| CastForm { choice: None, next: n.map(str::to_string) }.return_path();
    assert_eq!(c(Some("/a/b")), "/a/b");
    assert_eq!(c(Some("/\\evil.test")), "/");
    assert_eq!(c(Some("//x")), "/");
}

#[test]
fn approval_choices_and_entities() {
    let f = |c: &str| CastForm { choice: Some(c.to_string()), next: None }.position();
    assert_eq!(f("approve"), Some(Position::Approve));
    assert_eq!(f("disapprove"), Some(Position::Disapprove));
    assert_eq!(f("no_opinion"), Some(Position::NoOpinion));
    assert_eq!(f("maybe"), None);
    assert_eq!(entity("party", 4), Some(Entity::Party(4)));
    assert_eq!(entity("coalition", 1), Some(Entity::Coalition(1)));
    assert_eq!(entity("poll", 1), None);
}

#[test]
fn registration_and_login_decisions() {
    let c = |e: &str, p: &str| Credentials { email: e.to_string(), password: p.to_string() };
    assert_eq!(c(" a@b.c ", "12345678").check_registration(), None);
    assert_eq!(c("ab.c", "12345678").check_registration(), Some(RegistrationProblem::InvalidEmail));
    let long = format!("{}@x.test", "a".repeat(250));
    assert_eq!(c(&long, "12345678").check_registration(), Some(RegistrationProblem::InvalidEmail));
    assert_eq!(c("a@b.c", "1234567").check_registration(), Some(RegistrationProblem::ShortPassword));
    assert_eq!(c("  A@B.c ", "x").trimmed_email(), "A@B.c");

    let ok = LoginAccount { verified: true, banned: false };
    assert_eq!(login_decision(true, Some(ok)), Ok(()));
    assert_eq!(login_decision(false, Some(ok)), Err(LoginRefusal::BadCredentials));
    assert_eq!(login_decision(true, None), Err(LoginRefusal::BadCredentials));
    assert_eq!(
        login_decision(true, Some(LoginAccount { verified: false, banned: false })),
        Err(LoginRefusal::Unverified)
    );
    assert_eq!(
        login_decision(true, Some(LoginAccount { verified: true, banned: true })),
        Err(LoginRefusal::Suspended)
    );
    assert_eq!(LoginRefusal::BadCredentials.message(), "Invalid email or password.");
    assert!(registration_reply(Registration::Created).send_mail);
    assert!(!registration_reply(Registration::AlreadyRegistered).send_mail);
    assert_eq!(
        registration_reply(Registration::Created).check_email,
        registration_reply(Registration::AlreadyRegistered).check_email
    );
    assert!(!registration_reply(Registration::Failed).check_email);
}

fn opt(label: &str, asset: Option<i64>) -> PendingOption {
    PendingOption { label: label.to_string(), asset_id: asset }
}

#[test]
fn a_submission_needs_a_question_and_two_options() {
    let options = vec![opt(" Yes ", None), opt("  ", None), opt("", Some(9)), opt("No", None)];
    let c = check_submission("  Q?  ", " multi ", &options, None);
    assert_eq!(c.question, "Q?");
    assert_eq!(c.kind, "multi");
    assert_eq!(c.labels, vec!["Yes", "", "", "No"]);
    let kept = c.outcome.ok().unwrap();
    let got: Vec<(String, Option<i64>)> =
        kept.into_iter().map(|o| (o.label, o.asset_id)).collect();
    assert_eq!(
        got,
        vec![("Yes".to_string(), None), (String::new(), Some(9)), ("No".to_string(), None)]
    );

    let c = check_submission("", "bogus", &options, None);
    assert_eq!(c.kind, "single");
    assert!(matches!(c.outcome, Err(SubmissionProblem::NoQuestion)));
    let c = check_submission("Q", "", &vec![opt("only", None)], None);
    assert!(matches!(c.outcome, Err(SubmissionProblem::TooFewOptions)));
    let c = check_submission("Q", "yesno", &options, Some("too big".to_string()));
    match c.outcome {
        Err(SubmissionProblem::Upload(m)) => assert_eq!(m, "too big"),
        _ => panic!("the upload problem comes first"),
    }
    let tr = none();
    assert_eq!(
        SubmissionProblem::TooFewOptions.message(Lang::En, &tr),
        "A poll needs at least two options."
    );
}

#[test]
fn paging_windows() {
    assert_eq!(page_window(None), (1, 0));
    assert_eq!(page_window(Some(-3)), (1, 0));
    assert_eq!(page_window(Some(3)), (3, 100));
    assert_eq!(Page { p: None }.window(0), (0, 1, 0));
    assert_eq!(Page { p: Some(9) }.window(45), (3, 3, 40));
    assert_eq!(Page { p: Some(0) }.window(45), (3, 1, 0));
    assert_eq!(Page { p: Some(5) }.window(-45), (-1, 1, 0));
}

#[test]
fn admin_forms() {
    let s = SummaryForm { summary: "  ".to_string() };
    assert!(matches!(s.action(), DraftAction::Discard));
    let s = SummaryForm { summary: " text ".to_string() };
    assert!(matches!(s.action(), DraftAction::Publish(t) if t == "text"));
    let e = EducationForm {
        country: "uk".to_string(),
        institution: " Oxford ".to_string(),
        degree: None,
        field: None,
        start_date: None,
        end_date: None,
        source_url: "".to_string(),
    };
    assert_eq!(e.required(), None);
    assert_eq!(person_manage_path("jo", "uk"), "/admin/person/jo?country=uk");
    assert_eq!(CountryQuery { country: None }.person_path("jo"), "/admin/person/jo?country=");
    let n = NewsForm {
        country: "uk".to_string(),
        person: Some(String::new()),
        party: Some("lab".to_string()),
        headline: String::new(),
        url: String::new(),
        outlet: None,
        published_at: None,
        our_summary: None,
    };
    assert_eq!(n.return_path(), "/uk/parties/lab");
    let f = NewsFieldsForm { headline: " H ".to_string(), our_summary: Some(" ".to_string()), author: Some(" A ".to_string()) };
    let (h, s, a) = f.fields().ok().unwrap();
    assert_eq!((h.as_str(), s, a.as_deref()), ("H", None, Some("A")));
    assert!(NewsFieldsForm { headline: " ".to_string(), our_summary: None, author: None }.fields().is_err());
    let l = LinkForm { kind: "person".to_string(), slug: " jo ".to_string() }.target().ok().unwrap();
    assert_eq!(l, (LinkTarget::Person, "jo".to_string()));
    assert!(UnlinkForm { kind: "poll".to_string(), id: 1 }.target().is_err());
    let r = RejectForm { note: Some("  spam ".to_string()), violation: Some("on".to_string()) };
    assert!(r.is_violation());
    assert_eq!(r.note(), Some("spam".to_string()));
}

#[test]
fn not_found_sends_404() {
    assert_eq!(PageError::NotFound.status(), axum::http::StatusCode::NOT_FOUND.as_u16());
}

#[test]
fn server_error_sends_500() {
    assert_eq!(
        PageError::Server.status(),
        axum::http::StatusCode::INTERNAL_SERVER_ERROR.as_u16()
    );
}

#[test]
fn a_missing_account_and_a_wrong_password_are_refused_alike() {
    let dummy = open_public::auth::hash_password("dummy-password").unwrap();
    let stored = open_public::auth::hash_password("right").unwrap();
    let ok = LoginAccount { verified: true, banned: false };
    assert_eq!(sign_in("right", Some(ok), Some(&stored), &dummy), Ok(()));
    assert_eq!(sign_in("wrong", Some(ok), Some(&stored), &dummy), Err(LoginRefusal::BadCredentials));
    assert_eq!(sign_in("wrong", None, None, &dummy), Err(LoginRefusal::BadCredentials));
    // Even the dummy's own password never gets in without an account.
    assert_eq!(sign_in("dummy-password", None, None, &dummy), Err(LoginRefusal::BadCredentials));
    let unverified = LoginAccount { verified: false, banned: false };
    assert_eq!(sign_in("right", Some(unverified), Some(&stored), &dummy), Err(LoginRefusal::Unverified));
}
