//! User poll submission: what a submitted form must hold before it is stored
//! as a pending submission, and how a submission's state is named.

use vstd::prelude::*;

use crate::i18n::{translate, Lang, Translations};
use crate::text::{chars_of, push_str, str_eq, string_of, trim, trim_bounds};

verus! {

/// The poll kinds a submitter may choose, with their English labels.
pub const KINDS: [(&'static str, &'static str); 4] = [
    ("single", "Single choice"),
    ("multi", "Multiple choice"),
    ("yesno", "Yes / No"),
    ("scale", "Rating scale"),
];

/// Whether a kind is one a submitter may choose.
pub open spec fn allowed_kind(k: Seq<char>) -> bool {
    k == "single"@ || k == "multi"@ || k == "yesno"@ || k == "scale"@
}

/// The kind stored: the trimmed choice when it is allowed, else single choice.
pub open spec fn kind_spec(kind: Seq<char>) -> Seq<char> {
    if allowed_kind(trim(kind)) {
        trim(kind)
    } else {
        "single"@
    }
}

/// The kind a submission is stored with is the trimmed kind submitted
/// whenever that is one of the kinds offered in [`KINDS`]; any other kind is
/// stored as single choice, the first of them.
pub proof fn law_offered_kinds_are_kept(kind: Seq<char>)
    ensures
        (exists|i: int| 0 <= i < 4 && (#[trigger] KINDS@[i]).0@ == trim(kind)) ==> kind_spec(kind)
            == trim(kind),
        !(exists|i: int| 0 <= i < 4 && (#[trigger] KINDS@[i]).0@ == trim(kind)) ==> kind_spec(kind)
            == KINDS@[0].0@,
{
    reveal_strlit("single");
    reveal_strlit("multi");
    reveal_strlit("yesno");
    reveal_strlit("scale");
    assert(KINDS@[0].0@ == "single"@);
    assert(KINDS@[1].0@ == "multi"@);
    assert(KINDS@[2].0@ == "yesno"@);
    assert(KINDS@[3].0@ == "scale"@);
    if allowed_kind(trim(kind)) {
        if trim(kind) == "single"@ {
            assert(KINDS@[0].0@ == trim(kind));
        } else if trim(kind) == "multi"@ {
            assert(KINDS@[1].0@ == trim(kind));
        } else if trim(kind) == "yesno"@ {
            assert(KINDS@[2].0@ == trim(kind));
        } else {
            assert(KINDS@[3].0@ == trim(kind));
        }
    }
}

/// One option as the form delivered it: its label and the image stored for it.
pub struct PendingOption {
    pub label: String,
    pub asset_id: Option<i64>,
}

/// What a field of the submission form carries, by its name.
#[derive(Debug, Clone, Copy, PartialEq, Eq, Structural)]
pub enum FieldKind {
    /// The question's text.
    Question,
    /// The chosen poll kind.
    Kind,
    /// An option's label; each starts a new option.
    OptionLabel,
    /// An image for the question.
    QuestionImage,
    /// An image for the option just before it.
    OptionImage,
    /// Anything else, read and ignored.
    Other,
}

/// The kind of a form field, by its name.
pub open spec fn field_kind_spec(name: Seq<char>) -> FieldKind {
    if name == "question"@ {
        FieldKind::Question
    } else if name == "kind"@ {
        FieldKind::Kind
    } else if name == "option"@ {
        FieldKind::OptionLabel
    } else if name == "question_image"@ {
        FieldKind::QuestionImage
    } else if name == "option_image"@ {
        FieldKind::OptionImage
    } else {
        FieldKind::Other
    }
}

/// What a field of the given name carries.
pub fn field_kind(name: &str) -> (r: FieldKind)
    ensures
        r == field_kind_spec(name@),
{
    proof {
        reveal_strlit("question");
        reveal_strlit("kind");
        reveal_strlit("option");
        reveal_strlit("question_image");
        reveal_strlit("option_image");
    }
    if str_eq(name, "question") {
        FieldKind::Question
    } else if str_eq(name, "kind") {
        FieldKind::Kind
    } else if str_eq(name, "option") {
        FieldKind::OptionLabel
    } else if str_eq(name, "question_image") {
        FieldKind::QuestionImage
    } else if str_eq(name, "option_image") {
        FieldKind::OptionImage
    } else {
        FieldKind::Other
    }
}

/// A submission as its fields arrive, one at a time, before it is checked.
pub struct SubmissionDraft {
    pub question: String,
    pub kind: String,
    pub question_asset: Option<i64>,
    pub options: Vec<PendingOption>,
    /// Why an uploaded image was refused, the last one refused.
    pub refused: Option<String>,
}

impl SubmissionDraft {
    /// An empty draft: no question, single choice, no options.
    pub fn new() -> (r: SubmissionDraft)
        ensures
            r.question@.len() == 0,
            r.kind@ == "single"@,
            r.question_asset is None,
            r.options@.len() == 0,
            r.refused is None,
    {
        let mut kind = String::new();
        push_str(&mut kind, "single");
        SubmissionDraft {
            question: String::new(),
            kind,
            question_asset: None,
            options: Vec::new(),
            refused: None,
        }
    }

    /// Take in a text field: the question and the kind replace what came
    /// before, an option label adds an option with no image yet, and any other
    /// field changes nothing.
    pub fn text_field(&mut self, kind: FieldKind, text: String)
        ensures
            final(self).question == (if kind == FieldKind::Question {
                text
            } else {
                old(self).question
            }),
            final(self).kind == (if kind == FieldKind::Kind {
                text
            } else {
                old(self).kind
            }),
            kind == FieldKind::OptionLabel ==> final(self).options@.len() == old(self).options@.len() + 1
                && final(self).options@.drop_last() == old(self).options@
                && final(self).options@.last().label == text
                && final(self).options@.last().asset_id is None,
            kind != FieldKind::OptionLabel ==> final(self).options@ == old(self).options@,
            final(self).question_asset == old(self).question_asset,
            final(self).refused == old(self).refused,
    {
        match kind {
            FieldKind::Question => {
                self.question = text;
            },
            FieldKind::Kind => {
                self.kind = text;
            },
            FieldKind::OptionLabel => {
                let ghost before = self.options@;
                self.options.push(PendingOption { label: text, asset_id: None });
                proof {
                    assert(self.options@.drop_last() =~= before);
                }
            },
            _ => {},
        }
    }

    /// Take in a stored image: a question image becomes the question's, an
    /// option image belongs to the last option so far (and is dropped when
    /// there is none). An empty file input stores nothing and changes nothing.
    pub fn image_field(&mut self, kind: FieldKind, stored: Option<i64>)
        ensures
            final(self).question == old(self).question,
            final(self).kind == old(self).kind,
            final(self).refused == old(self).refused,
            final(self).question_asset == (if kind == FieldKind::QuestionImage && stored is Some {
                stored
            } else {
                old(self).question_asset
            }),
            final(self).options@.len() == old(self).options@.len(),
            forall|i: int|
                0 <= i < old(self).options@.len() - 1 ==> #[trigger] final(self).options@[i]
                    == old(self).options@[i],
            old(self).options@.len() > 0 ==> final(self).options@.last().label == old(
                self,
            ).options@.last().label,
            old(self).options@.len() > 0 ==> final(self).options@.last().asset_id == (if kind
                == FieldKind::OptionImage && stored is Some {
                stored
            } else {
                old(self).options@.last().asset_id
            }),
    {
        match stored {
            Some(id) => match kind {
                FieldKind::QuestionImage => {
                    self.question_asset = Some(id);
                },
                FieldKind::OptionImage => {
                    let n = self.options.len();
                    if n > 0 {
                        let last = self.options.pop();
                        match last {
                            Some(o) => {
                                self.options.push(PendingOption { label: o.label, asset_id: Some(id) });
                            },
                            None => {},
                        }
                    }
                },
                _ => {},
            },
            None => {},
        }
    }

    /// Note an image the media checks refused; the last refusal is the one
    /// shown.
    pub fn refuse(&mut self, message: String)
        ensures
            final(self).refused == Some(message),
            final(self).question == old(self).question,
            final(self).kind == old(self).kind,
            final(self).question_asset == old(self).question_asset,
            final(self).options@ == old(self).options@,
    {
        self.refused = Some(message);
    }

    /// Check the finished draft, as [`check_submission`] does.
    pub fn check(self) -> (r: CheckedSubmission)
        ensures
            r.question@ == trim(self.question@),
            r.kind@ == kind_spec(self.kind@),
            r.labels@.len() == self.options@.len(),
            forall|k: int|
                0 <= k < self.options@.len() ==> (#[trigger] r.labels@[k])@ == trim(
                    self.options@[k].label@,
                ),
            match r.outcome {
                Ok(kept) => submission_spec(
                    self.question@,
                    self.options@.map_values(|o: PendingOption| option_view(o)),
                    match self.refused {
                        Some(m) => Some(m@),
                        None => None,
                    },
                ) == Ok::<Seq<(Seq<char>, Option<i64>)>, Option<Seq<char>>>(
                    kept@.map_values(|o: PendingOption| option_view(o)),
                ),
                Err(SubmissionProblem::Upload(m)) => self.refused matches Some(u) && u@ == m@,
                Err(SubmissionProblem::NoQuestion) => self.refused is None && trim(
                    self.question@,
                ).len() == 0,
                Err(SubmissionProblem::TooFewOptions) => self.refused is None && trim(
                    self.question@,
                ).len() > 0 && kept_options(
                    self.options@.map_values(|o: PendingOption| option_view(o)),
                ).len() < 2,
            },
    {
        check_submission(self.question.as_str(), self.kind.as_str(), &self.options, self.refused)
    }
}

/// Why a submission goes back to the submitter.
#[derive(Debug)]
pub enum SubmissionProblem {
    /// An uploaded image was refused; the message says why.
    Upload(String),
    /// The question is empty.
    NoQuestion,
    /// Fewer than two options have a label or an image.
    TooFewOptions,
}

/// A submission as checked: what the form is re-rendered with (the trimmed
/// question, the kind, the trimmed labels) and the options to store, or the
/// problem.
pub struct CheckedSubmission {
    pub question: String,
    pub kind: String,
    pub labels: Vec<String>,
    pub outcome: Result<Vec<PendingOption>, SubmissionProblem>,
}

/// The text and image of an option.
pub open spec fn option_view(o: PendingOption) -> (Seq<char>, Option<i64>) {
    (o.label@, o.asset_id)
}

/// The options kept: those with a non-blank label or an image, labels trimmed.
pub open spec fn kept_options(opts: Seq<(Seq<char>, Option<i64>)>) -> Seq<(Seq<char>, Option<i64>)>
    decreases opts.len(),
{
    if opts.len() == 0 {
        Seq::empty()
    } else {
        let prev = kept_options(opts.drop_last());
        let o = opts.last();
        if trim(o.0).len() > 0 || o.1 is Some {
            prev.push((trim(o.0), o.1))
        } else {
            prev
        }
    }
}

/// What a checked submission leads to.
pub open spec fn submission_spec(
    question: Seq<char>,
    opts: Seq<(Seq<char>, Option<i64>)>,
    upload_refused: Option<Seq<char>>,
) -> Result<Seq<(Seq<char>, Option<i64>)>, Option<Seq<char>>> {
    if upload_refused is Some {
        Err(upload_refused)
    } else if trim(question).len() == 0 {
        Err(None)
    } else if kept_options(opts).len() < 2 {
        Err(None)
    } else {
        Ok(kept_options(opts))
    }
}

fn trimmed_string(s: &str) -> (r: String)
    ensures
        r@ == trim(s@),
{
    let v = chars_of(s);
    let (a, b) = trim_bounds(&v, 0, v.len());
    assert(v@.subrange(0, v.len() as int) =~= s@);
    string_of(&v, a, b)
}

/// Check a submitted poll: the question trimmed and required, the kind one of
/// [`KINDS`] (single choice otherwise), and at least two options with a label
/// or an image. A refused upload is reported first.
pub fn check_submission(
    question: &str,
    kind: &str,
    options: &Vec<PendingOption>,
    upload_refused: Option<String>,
) -> (r: CheckedSubmission)
    ensures
        r.question@ == trim(question@),
        r.kind@ == kind_spec(kind@),
        r.labels@.len() == options@.len(),
        forall|k: int| 0 <= k < options@.len() ==> (#[trigger] r.labels@[k])@ == trim(options@[k].label@),
        match r.outcome {
            Ok(kept) => submission_spec(
                question@,
                options@.map_values(|o: PendingOption| option_view(o)),
                match upload_refused {
                    Some(m) => Some(m@),
                    None => None,
                },
            ) == Ok::<Seq<(Seq<char>, Option<i64>)>, Option<Seq<char>>>(
                kept@.map_values(|o: PendingOption| option_view(o)),
            ),
            Err(SubmissionProblem::Upload(m)) => upload_refused matches Some(u) && u@ == m@,
            Err(SubmissionProblem::NoQuestion) => upload_refused is None && trim(question@).len()
                == 0,
            Err(SubmissionProblem::TooFewOptions) => upload_refused is None && trim(question@).len()
                > 0 && kept_options(options@.map_values(|o: PendingOption| option_view(o))).len()
                < 2,
        },
{
    let q = trimmed_string(question);
    let t = trimmed_string(kind);
    let k = if str_eq(t.as_str(), "single") || str_eq(t.as_str(), "multi") || str_eq(
        t.as_str(),
        "yesno",
    ) || str_eq(t.as_str(), "scale") {
        t
    } else {
        let mut s = String::new();
        push_str(&mut s, "single");
        s
    };
    let ghost opts = options@.map_values(|o: PendingOption| option_view(o));
    let mut labels: Vec<String> = Vec::new();
    let mut kept: Vec<PendingOption> = Vec::new();
    let mut i: usize = 0;
    while i < options.len()
        invariant
            i <= options@.len(),
            opts == options@.map_values(|o: PendingOption| option_view(o)),
            labels@.len() == i,
            forall|m: int| 0 <= m < i ==> (#[trigger] labels@[m])@ == trim(options@[m].label@),
            kept@.map_values(|o: PendingOption| option_view(o)) == kept_options(opts.take(i as int)),
        decreases options.len() - i,
    {
        let label = trimmed_string(options[i].label.as_str());
        proof {
            assert(opts.take(i + 1).drop_last() =~= opts.take(i as int));
            assert(opts.take(i + 1).last() == option_view(options@[i as int]));
        }
        let ghost before = kept@;
        if !label.as_str().is_empty() || options[i].asset_id.is_some() {
            let copy = trimmed_string(options[i].label.as_str());
            kept.push(PendingOption { label: copy, asset_id: options[i].asset_id });
            assert(kept@.map_values(|o: PendingOption| option_view(o)) =~= before.map_values(
                |o: PendingOption| option_view(o),
            ).push((trim(options@[i as int].label@), options@[i as int].asset_id)));
        }
        labels.push(label);
        i = i + 1;
    }
    assert(opts.take(options@.len() as int) =~= opts);
    let outcome = match upload_refused {
        Some(m) => Err(SubmissionProblem::Upload(m)),
        None => if q.as_str().is_empty() {
            Err(SubmissionProblem::NoQuestion)
        } else if kept.len() < 2 {
            Err(SubmissionProblem::TooFewOptions)
        } else {
            Ok(kept)
        },
    };
    CheckedSubmission { question: q, kind: k, labels, outcome }
}

impl SubmissionProblem {
    /// The message shown with the re-rendered form: the upload's own message,
    /// or a translated English source string.
    pub fn message<'a>(&'a self, lang: Lang, tr: &'a Translations) -> (r: &'a str)
        ensures
            r@ == match self {
                SubmissionProblem::Upload(m) => m@,
                SubmissionProblem::NoQuestion => translate(tr, lang, "A question is required."@),
                SubmissionProblem::TooFewOptions => translate(
                    tr,
                    lang,
                    "A poll needs at least two options."@,
                ),
            },
    {
        match self {
            SubmissionProblem::Upload(m) => m.as_str(),
            SubmissionProblem::NoQuestion => lang.t(tr, "A question is required."),
            SubmissionProblem::TooFewOptions => lang.t(tr, "A poll needs at least two options."),
        }
    }
}

/// The English name of a submission's state.
pub open spec fn status_label_spec(status: Seq<char>) -> Seq<char> {
    if status == "pending_ai"@ || status == "pending_admin"@ {
        "Under review"@
    } else if status == "approved"@ {
        "Published"@
    } else {
        "Not accepted"@
    }
}

/// The localized name of a submission's state, for its pill.
pub fn status_label<'a>(status: &str, lang: Lang, tr: &'a Translations) -> (r: &'a str)
    ensures
        r@ == translate(tr, lang, status_label_spec(status@)),
{
    let source = if str_eq(status, "pending_ai") || str_eq(status, "pending_admin") {
        "Under review"
    } else if str_eq(status, "approved") {
        "Published"
    } else {
        "Not accepted"
    };
    lang.t(tr, source)
}

} // verus!
