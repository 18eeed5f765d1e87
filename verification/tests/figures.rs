use open_public::pages::approve::{approval_viewer, ApprovalViewer, Position};
use open_public::content::{
    localize_attributes, localize_education, localize_poll, localize_statements,
    BatchTranslations, Education, Localized, PersonAttribute, Poll, PollOption, Statement,
};
use open_public::pages::search::{is_searchable, Params};
use open_public::pages::compass::{compass_path, known_scope, other_scope, Scopes};
use open_public::fmt::Date;
use open_public::pages::admin::{all_of, first_of, form_pairs, poll_page, NewPollForm};
use open_public::pages::country::{
    any_presidential, compass_link, composition, total_seats, vacant_seats,
};
use open_public::pages::follow::{follow_state, FollowState};
use open_public::pages::party::{current_and_former, party_manage_path, party_page};
use open_public::pages::person::{current_role, first_ongoing, is_no_later, Role};
use open_public::pages::poll::{offers_ballot, viewer, Viewer};
use open_public::pages::polls::open_and_closed;
use open_public::pages::rows::{group_runs, split_indices};
use open_public::pages::submit::{field_kind, FieldKind, SubmissionDraft, SubmissionProblem};
use open_public::reviewer::{deferral_note, screening_step, Decision, ScreeningAction, ScreeningEvent};

fn d(year: i32, month: u32, day: u32) -> Option<Date> {
    Some(Date { year, month, day })
}

fn role(title: Option<&str>, org: Option<&str>, district: Option<&str>, start: Option<Date>, end: Option<Date>) -> Role {
    Role {
        role_type: "mp".to_string(),
        title: title.map(str::to_string),
        org: org.map(str::to_string),
        district: district.map(str::to_string),
        start_date: start,
        end_date: end,
    }
}

#[test]
fn consecutive_rows_of_one_alliance_form_one_run() {
    let rows = vec![
        ("North".to_string(), 1),
        ("North".to_string(), 2),
        ("South".to_string(), 3),
        ("North".to_string(), 4),
    ];
    let runs = group_runs(rows);
    let got: Vec<(String, Vec<i32>)> = runs.into_iter().map(|r| (r.key, r.items)).collect();
    assert_eq!(
        got,
        vec![
            ("North".to_string(), vec![1, 2]),
            ("South".to_string(), vec![3]),
            ("North".to_string(), vec![4]),
        ]
    );
    assert!(group_runs(Vec::<(String, u8)>::new()).is_empty());
}

#[test]
fn indices_split_by_flag_in_order() {
    let (yes, no) = split_indices(&vec![true, false, false, true, true]);
    assert_eq!(yes, vec![0, 3, 4]);
    assert_eq!(no, vec![1, 2]);
}

#[test]
fn seats_total_and_vacancies() {
    assert_eq!(total_seats(&vec![120, 80, 33], 7), 240);
    assert_eq!(total_seats(&vec![], 0), 0);
    assert_eq!(vacant_seats(Some(250), 240), Some(10));
    assert_eq!(vacant_seats(Some(240), 240), None);
    assert_eq!(vacant_seats(Some(200), 240), None);
    assert_eq!(vacant_seats(None, 240), None);
    let c = composition(&vec![120, 80, 33], 7, Some(250), 1);
    assert_eq!((c.total, c.bicameral, c.vacant), (240, false, Some(10)));
    let c = composition(&vec![60, 40], 0, None, 2);
    assert_eq!((c.total, c.bicameral, c.vacant), (100, true, None));
}

#[test]
fn each_coming_election_links_to_the_compass_that_matches_it() {
    assert_eq!(compass_link("fr", Some("presidential"), 5, 3, "person"), Some("/fr/compass/person".to_string()));
    assert_eq!(compass_link("fr", Some("presidential"), 5, 0, "person"), None);
    assert_eq!(compass_link("fr", Some("parliamentary"), 5, 0, "person"), Some("/fr/compass".to_string()));
    assert_eq!(compass_link("fr", None, 0, 9, "person"), None);
    assert!(any_presidential(&vec![None, Some("local".to_string()), Some("presidential".to_string())]));
    assert!(!any_presidential(&vec![None, Some("Presidential".to_string())]));
}

#[test]
fn the_current_role_is_the_latest_begun_of_those_still_held() {
    let roles = vec![
        role(Some("Minister"), None, None, d(2020, 1, 1), None),
        role(None, None, None, d(2023, 5, 2), d(2024, 1, 1)),
        role(Some("Speaker"), None, None, d(2021, 3, 9), None),
        role(Some("Whip"), None, None, d(2021, 3, 9), None),
        role(None, None, None, None, None),
    ];
    // The two that began on the same, latest day: the later-listed one wins.
    assert_eq!(current_role(&roles), Some(3));
    assert_eq!(current_role(&vec![role(None, None, None, d(2020, 1, 1), d(2021, 1, 1))]), None);
    assert_eq!(current_role(&vec![role(None, None, None, None, None)]), Some(0));
    assert!(is_no_later(None, d(1, 1, 1)));
    assert!(!is_no_later(d(2000, 2, 1), d(2000, 1, 31)));
    assert!(is_no_later(d(2000, 1, 31), d(2000, 1, 31)));
}

#[test]
fn a_role_is_headed_and_placed() {
    let r = role(Some("Minister of Health"), Some("Cabinet"), Some("Leeds"), None, None);
    assert_eq!(r.heading(), "Minister of Health");
    assert_eq!(r.subtitle(), "Cabinet · Leeds");
    let r = role(None, None, Some("Leeds"), None, None);
    assert_eq!(r.heading(), "mp");
    assert_eq!(r.subtitle(), "Leeds");
    assert_eq!(role(None, Some("Senate"), None, None, None).subtitle(), "Senate");
    assert_eq!(role(None, None, None, None, None).subtitle(), "");
}

#[test]
fn current_party_and_members() {
    let ends = vec![d(2010, 1, 1), None, d(2015, 6, 1), None];
    assert_eq!(first_ongoing(&ends), Some(1));
    assert_eq!(first_ongoing(&vec![d(2010, 1, 1)]), None);
    assert_eq!(current_and_former(&ends), (vec![1, 3], vec![0, 2]));
    assert_eq!(party_manage_path("greens", "uk"), "/admin/party/greens?country=uk");
    assert_eq!(party_page("uk", "greens"), "/uk/parties/greens");
}

#[test]
fn polls_split_into_open_and_closed_at_now() {
    let closes = vec![None, Some(100), Some(50), Some(101)];
    assert_eq!(open_and_closed(&closes, 100), (vec![0, 3], vec![1, 2]));
    assert_eq!(open_and_closed(&closes, 0), (vec![0, 1, 2, 3], vec![]));
}

#[test]
fn who_can_vote_and_who_follows() {
    assert_eq!(viewer(false, true), Viewer::Anonymous);
    assert_eq!(viewer(true, true), Viewer::Voted);
    assert_eq!(viewer(true, false), Viewer::CanVote);
    assert!(offers_ballot(Viewer::CanVote, true));
    assert!(!offers_ballot(Viewer::CanVote, false));
    assert!(!offers_ballot(Viewer::Voted, true));
    assert_eq!(follow_state(false, true), FollowState::Anonymous);
    assert_eq!(follow_state(true, true), FollowState::Following);
    assert_eq!(follow_state(true, false), FollowState::NotFollowing);
}

#[test]
fn screening_steps() {
    assert_eq!(screening_step(4, ScreeningEvent::Judged(Decision::Allow)), (5, ScreeningAction::RecordAllow));
    assert_eq!(screening_step(0, ScreeningEvent::Judged(Decision::Reject)), (1, ScreeningAction::RecordReject));
    assert_eq!(screening_step(2, ScreeningEvent::AttemptFailed), (2, ScreeningAction::CountFailure));
    assert_eq!(screening_step(2, ScreeningEvent::FailuresCounted(2)), (2, ScreeningAction::Wait));
    assert_eq!(screening_step(2, ScreeningEvent::FailuresCounted(3)), (2, ScreeningAction::DeferToAdmin));
    assert_eq!(deferral_note(), "automated review unavailable; sent for manual review");
}

#[test]
fn a_submission_draft_takes_its_fields_in_order() {
    assert_eq!(field_kind("question"), FieldKind::Question);
    assert_eq!(field_kind("option_image"), FieldKind::OptionImage);
    assert_eq!(field_kind("csrf"), FieldKind::Other);
    let mut draft = SubmissionDraft::new();
    assert_eq!(draft.kind, "single");
    // An image before any option has nowhere to go.
    draft.image_field(FieldKind::OptionImage, Some(9));
    draft.text_field(FieldKind::Question, "  Best city?  ".to_string());
    draft.text_field(FieldKind::Kind, "multi".to_string());
    draft.image_field(FieldKind::QuestionImage, Some(1));
    draft.text_field(FieldKind::OptionLabel, "Paris".to_string());
    draft.image_field(FieldKind::OptionImage, Some(2));
    draft.text_field(FieldKind::OptionLabel, " ".to_string());
    draft.image_field(FieldKind::OptionImage, None);
    draft.text_field(FieldKind::OptionLabel, "Rome".to_string());
    draft.text_field(FieldKind::Other, "ignored".to_string());
    assert_eq!(draft.question_asset, Some(1));
    assert_eq!(draft.options.len(), 3);
    assert_eq!(draft.options[0].asset_id, Some(2));
    assert_eq!(draft.options[1].asset_id, None);
    let checked = draft.check();
    assert_eq!(checked.question, "Best city?");
    assert_eq!(checked.kind, "multi");
    match checked.outcome {
        Ok(kept) => {
            let labels: Vec<&str> = kept.iter().map(|o| o.label.as_str()).collect();
            assert_eq!(labels, vec!["Paris", "Rome"]);
        }
        Err(_) => panic!("the draft should pass"),
    }
    let mut refused = SubmissionDraft::new();
    refused.text_field(FieldKind::Question, "Q".to_string());
    refused.refuse("first".to_string());
    refused.refuse("too large".to_string());
    match refused.check().outcome {
        Err(SubmissionProblem::Upload(m)) => assert_eq!(m, "too large"),
        _ => panic!("the refusal should come back"),
    }
}

#[test]
fn the_new_poll_form_reads_repeated_fields() {
    let body = "country=uk&question=Which%3F&option=Yes&option=No&option_media=a.png&kind=yesno&country=fr";
    let f = NewPollForm::read(body);
    assert_eq!(f.country, "uk");
    assert_eq!(f.question, "Which?");
    assert_eq!(f.kind, "yesno");
    assert_eq!(f.person, None);
    assert_eq!(f.options, vec!["Yes".to_string(), "No".to_string()]);
    assert_eq!(f.option_media, vec!["a.png".to_string()]);
    let empty = NewPollForm::read("");
    assert_eq!((empty.country.as_str(), empty.question.as_str(), empty.kind.as_str()), ("", "", ""));
    let pairs = form_pairs("a=1&b=2&a=3");
    assert_eq!(first_of(&pairs, "a"), Some("1".to_string()));
    assert_eq!(first_of(&pairs, "c"), None);
    assert_eq!(all_of(&pairs, "a"), vec!["1".to_string(), "3".to_string()]);
    assert_eq!(poll_page("uk", "tax-cut"), "/uk/poll/tax-cut");
}

#[test]
fn translations_overlay_lists_and_polls() {
    let tr = BatchTranslations {
        entries: vec![
            (1, "text_original".to_string(), "Bonjour".to_string()),
            (2, "institution".to_string(), "Université".to_string()),
            (2, "degree".to_string(), "Licence".to_string()),
            (2, "field".to_string(), "Droit".to_string()),
            (3, "value".to_string(), "Avocat".to_string()),
        ],
    };
    let mut st = vec![
        Statement { id: 1, text_original: "Hello".to_string() },
        Statement { id: 9, text_original: "Bye".to_string() },
    ];
    localize_statements(&mut st, &tr);
    let got: Vec<&str> = st.iter().map(|s| s.text_original.as_str()).collect();
    assert_eq!(got, vec!["Bonjour", "Bye"]);
    let mut ed = vec![Education {
        id: 2,
        institution: "University".to_string(),
        degree: None,
        field: Some("Law".to_string()),
    }];
    localize_education(&mut ed, &tr);
    assert_eq!(ed[0].institution, "Université");
    // A degree never recorded is not conjured up by a translation.
    assert_eq!(ed[0].degree, None);
    assert_eq!(ed[0].field.as_deref(), Some("Droit"));
    let mut at = vec![PersonAttribute { id: 3, value: "Lawyer".to_string() }];
    localize_attributes(&mut at, &tr);
    assert_eq!(at[0].value, "Avocat");
    let mut poll = Poll {
        question: "Yes or no?".to_string(),
        options: vec![
            PollOption { id: 5, label: "Yes".to_string() },
            PollOption { id: 6, label: "No".to_string() },
        ],
    };
    let q = Localized::from_pairs(vec![("question".to_string(), "Oui ou non ?".to_string())]);
    let labels = BatchTranslations { entries: vec![(6, "label".to_string(), "Non".to_string())] };
    localize_poll(&mut poll, &q, &labels);
    assert_eq!(poll.question, "Oui ou non ?");
    let got: Vec<&str> = poll.options.iter().map(|o| o.label.as_str()).collect();
    assert_eq!(got, vec!["Yes", "Non"]);
    let mut same = Poll { question: "Q".to_string(), options: vec![] };
    localize_poll(&mut same, &Localized::empty(), &labels);
    assert_eq!(same.question, "Q");
}

#[test]
fn search_runs_only_for_a_query_that_is_not_blank() {
    let p = Params { q: Some("  ".to_string()) };
    assert!(!p.has_query());
    assert_eq!(p.text(), "  ");
    let p = Params { q: Some(" ann ".to_string()) };
    assert!(p.has_query());
    assert_eq!(p.text(), " ann ");
    let p = Params { q: None };
    assert!(!p.has_query());
    assert_eq!(p.text(), "");
    assert!(is_searchable("x"));
}

#[test]
fn compass_scopes_and_their_addresses() {
    let scopes = Scopes { party: "party", person: "person" };
    assert!(known_scope("party", &scopes));
    assert!(known_scope("person", &scopes));
    assert!(!known_scope("pets", &scopes));
    assert_eq!(compass_path("fr", "party", &scopes), "/fr/compass");
    assert_eq!(compass_path("fr", "person", &scopes), "/fr/compass/person");
    assert_eq!(other_scope("party", &scopes), "person");
    assert_eq!(other_scope("person", &scopes), "party");
}

#[test]
fn the_approval_panel_knows_its_viewer() {
    assert_eq!(approval_viewer(false, Some(Position::Approve)), ApprovalViewer::Anonymous);
    assert_eq!(approval_viewer(true, Some(Position::NoOpinion)), ApprovalViewer::Voted(Position::NoOpinion));
    assert_eq!(approval_viewer(true, None), ApprovalViewer::CanVote);
}
