//! The per-file pipeline: from a file's resolved capability support and the
//! run's operating mode, decide whether the file is ignored, protected,
//! unhandled, or handed to the handler of that mode.
use crate::no_double_equals::RuleDiagnostic;
use vstd::prelude::*;

verus! {

/// A capability the pipeline may apply to a file.
#[derive(Clone, Copy, Debug, PartialEq, Eq, Structural)]
pub enum FeatureName {
    Lint,
    Format,
    OrganizeImports,
}

/// How one capability applies to one file.
#[derive(Clone, Copy, Debug, PartialEq, Eq, Structural)]
pub enum SupportKind {
    Supported,
    FeatureNotEnabled,
    Ignored,
    Protected,
    FileNotSupported,
}

/// The run-wide operating mode.
#[derive(Clone, Copy, Debug, PartialEq, Eq, Structural)]
pub enum TraversalMode {
    Check,
    CI,
    Format,
    Lint,
    Migrate,
}

/// The support of each capability for one file, as the workspace resolved it.
#[derive(Clone, Copy, Debug, PartialEq, Eq, Structural)]
pub struct FileFeatures {
    pub lint: SupportKind,
    pub format: SupportKind,
    pub organize_imports: SupportKind,
}

/// The handler a processed file is dispatched to.
#[derive(Clone, Copy, Debug, PartialEq, Eq, Structural)]
pub enum Handler {
    Lint,
    Format,
    Check,
}

/// The kind of change a diff shows.
#[derive(Clone, Copy, Debug, PartialEq, Eq, Structural)]
pub enum DiffKind {
    Format,
    OrganizeImports,
}

/// A diagnostic about a file as a whole.
#[derive(Debug)]
pub struct FileDiagnostic {
    pub category: String,
    pub path: String,
    pub verbose: bool,
}

/// What the traversal prints for a file.
#[derive(Debug)]
pub enum Message {
    SkippedFixes { skipped_suggested_fixes: u32 },
    Failure,
    Error(FileDiagnostic),
    Diagnostics {
        name: String,
        content: String,
        diagnostics: Vec<RuleDiagnostic>,
        skipped_diagnostics: u32,
    },
    Diff { file_name: String, old: String, new: String, diff_kind: DiffKind },
}

/// The outcome of processing one file.
#[derive(Debug)]
pub enum FileStatus {
    Success,
    Message(Message),
    Ignored,
    /// A file that belongs to another tool and is left untouched.
    Protected(String),
}

/// What the pipeline decided for a file: an outcome, or the handler to run.
#[derive(Debug)]
pub enum Step {
    Done(Result<FileStatus, Message>),
    Dispatch(Handler),
}

/// The classification of a file before any handler runs.
#[derive(Clone, Copy, Debug, PartialEq, Eq, Structural)]
pub enum Verdict {
    /// The workspace could not resolve the file's capabilities.
    MissingHandler,
    /// No capability can handle the file.
    Unhandled,
    Ignored,
    Protected,
    Process,
}

/// The run-wide options shared by every file, and the count of files
/// processed so far.
#[derive(Debug)]
pub struct TraversalOptions {
    mode: TraversalMode,
    processed: u64,
}

/// A shared view of the run's options, handed to the handlers.
pub struct SharedTraversalOptions<'a> {
    inner: &'a TraversalOptions,
}

pub open spec fn support_for(f: FileFeatures, name: FeatureName) -> SupportKind {
    match name {
        FeatureName::Lint => f.lint,
        FeatureName::Format => f.format,
        FeatureName::OrganizeImports => f.organize_imports,
    }
}

pub open spec fn is_off(k: SupportKind) -> bool {
    k == SupportKind::Ignored || k == SupportKind::FeatureNotEnabled
}

/// Every capability is ignored or not enabled.
pub open spec fn all_off(f: FileFeatures) -> bool {
    is_off(f.lint) && is_off(f.format) && is_off(f.organize_imports)
}

/// No capability supports the file's type.
pub open spec fn all_unsupported(f: FileFeatures) -> bool {
    f.lint == SupportKind::FileNotSupported && f.format == SupportKind::FileNotSupported
        && f.organize_imports == SupportKind::FileNotSupported
}

/// The capabilities each mode requires, in the order they are checked.
pub open spec fn required(mode: TraversalMode) -> Seq<FeatureName> {
    match mode {
        TraversalMode::Check | TraversalMode::CI => seq![
            FeatureName::Lint,
            FeatureName::Format,
            FeatureName::OrganizeImports,
        ],
        TraversalMode::Format => seq![FeatureName::Format],
        TraversalMode::Lint => seq![FeatureName::Lint],
        TraversalMode::Migrate => Seq::empty(),
    }
}

/// The support kind of the first capability of `names` that is not supported.
pub open spec fn first_not_enabled(f: FileFeatures, names: Seq<FeatureName>) -> Option<SupportKind>
    decreases names.len(),
{
    if names.len() == 0 {
        None
    } else if support_for(f, names[0]) != SupportKind::Supported {
        Some(support_for(f, names[0]))
    } else {
        first_not_enabled(f, names.drop_first())
    }
}

/// `k` as a reason to stop, unless it is `Supported`.
pub open spec fn reason(k: SupportKind) -> Option<SupportKind> {
    if k == SupportKind::Supported {
        None
    } else {
        Some(k)
    }
}

/// The support kind of the first capability that `mode` requires and that is
/// not supported: lint, then format, then import organization.
pub open spec fn reason_for(f: FileFeatures, mode: TraversalMode) -> Option<SupportKind> {
    match mode {
        TraversalMode::Check | TraversalMode::CI => if f.lint != SupportKind::Supported {
            Some(f.lint)
        } else if f.format != SupportKind::Supported {
            Some(f.format)
        } else {
            reason(f.organize_imports)
        },
        TraversalMode::Format => reason(f.format),
        TraversalMode::Lint => reason(f.lint),
        TraversalMode::Migrate => None,
    }
}

/// The per-mode reason is the first unsupported capability of the mode's
/// table of required capabilities.
pub proof fn lemma_reason_follows_table(f: FileFeatures, mode: TraversalMode)
    ensures
        reason_for(f, mode) == first_not_enabled(f, required(mode)),
{
    reveal_with_fuel(first_not_enabled, 4);
    let names = required(mode);
    if names.len() > 0 {
        let r1 = names.drop_first();
        if r1.len() > 0 {
            let r2 = r1.drop_first();
            if r2.len() > 0 {
                assert(r2.drop_first().len() == 0);
            }
        }
    }
}

pub open spec fn verdict(features: Option<FileFeatures>, mode: TraversalMode) -> Verdict {
    match features {
        None => Verdict::MissingHandler,
        Some(f) => if all_off(f) {
            Verdict::Ignored
        } else if all_unsupported(f) {
            Verdict::Unhandled
        } else {
            match reason_for(f, mode) {
                Some(SupportKind::FileNotSupported) => Verdict::Unhandled,
                Some(SupportKind::FeatureNotEnabled) | Some(SupportKind::Ignored) => Verdict::Ignored,
                Some(SupportKind::Protected) => Verdict::Protected,
                _ => Verdict::Process,
            }
        },
    }
}

pub open spec fn handler_for(mode: TraversalMode) -> Handler {
    match mode {
        TraversalMode::Lint => Handler::Lint,
        TraversalMode::Format => Handler::Format,
        _ => Handler::Check,
    }
}

/// The diagnostic for a file no handler takes, as `process_file` builds it.
pub open spec fn is_unhandled_error(m: Message, path: Seq<char>) -> bool {
    match m {
        Message::Error(d) => d.category@ == "files/missingHandler"@ && d.path@ == path && d.verbose,
        _ => false,
    }
}

impl SupportKind {
    pub fn is_supported(&self) -> (r: bool)
        ensures
            r == (*self == SupportKind::Supported),
    {
        match self {
            SupportKind::Supported => true,
            _ => false,
        }
    }

    /// Ignored or not enabled.
    pub fn is_off(&self) -> (r: bool)
        ensures
            r == is_off(*self),
    {
        match self {
            SupportKind::Ignored | SupportKind::FeatureNotEnabled => true,
            _ => false,
        }
    }
}

impl FileFeatures {
    pub fn support_kind_for(&self, name: FeatureName) -> (r: SupportKind)
        ensures
            r == support_for(*self, name),
    {
        match name {
            FeatureName::Lint => self.lint,
            FeatureName::Format => self.format,
            FeatureName::OrganizeImports => self.organize_imports,
        }
    }

    /// Every capability is ignored or not enabled.
    pub fn is_ignored(&self) -> (r: bool)
        ensures
            r == all_off(*self),
    {
        self.lint.is_off() && self.format.is_off() && self.organize_imports.is_off()
    }

    /// No capability supports the file's type.
    pub fn is_not_supported(&self) -> (r: bool)
        ensures
            r == all_unsupported(*self),
    {
        self.lint == SupportKind::FileNotSupported && self.format == SupportKind::FileNotSupported
            && self.organize_imports == SupportKind::FileNotSupported
    }
}

impl Message {
    /// Whether the message makes the run fail.
    pub fn is_error(&self) -> (r: bool)
        ensures
            r == (self is Diff || self is Diagnostics || self is Failure || self is Error),
    {
        match self {
            Message::Diff { .. } | Message::Diagnostics { .. } | Message::Failure | Message::Error(
                _,
            ) => true,
            _ => false,
        }
    }
}

impl TraversalOptions {
    pub closed spec fn processed_count(&self) -> nat {
        self.processed as nat
    }

    pub closed spec fn spec_mode(&self) -> TraversalMode {
        self.mode
    }

    /// The run's operating mode.
    pub fn mode(&self) -> (r: TraversalMode)
        ensures
            r == self.spec_mode(),
    {
        self.mode
    }

    /// Options for a run in `mode`, with nothing processed yet.
    pub fn new(mode: TraversalMode) -> (r: TraversalOptions)
        ensures
            r.spec_mode() == mode,
            r.processed_count() == 0,
    {
        TraversalOptions { mode, processed: 0 }
    }

    /// The number of files processed so far.
    pub fn processed(&self) -> (r: u64)
        ensures
            r as nat == self.processed_count(),
    {
        self.processed
    }

    pub fn increment_processed(&mut self)
        requires
            old(self).processed_count() < u64::MAX,
        ensures
            final(self).processed_count() == old(self).processed_count() + 1,
            final(self).spec_mode() == old(self).spec_mode(),
    {
        self.processed = self.processed + 1;
    }
}

impl<'a> SharedTraversalOptions<'a> {
    pub closed spec fn view(&self) -> &'a TraversalOptions {
        self.inner
    }

    pub fn new(t: &'a TraversalOptions) -> (r: SharedTraversalOptions<'a>)
        ensures
            r@ == t,
    {
        SharedTraversalOptions { inner: t }
    }

    /// The options shared.
    pub fn options(&self) -> (r: &'a TraversalOptions)
        ensures
            r == self@,
    {
        self.inner
    }
}

impl<'a> std::ops::Deref for SharedTraversalOptions<'a> {
    type Target = TraversalOptions;

    fn deref(&self) -> (r: &TraversalOptions)
        ensures
            r == self@,
    {
        self.inner
    }
}

/// The capabilities `mode` requires, in the order they are checked.
pub fn required_features(mode: TraversalMode) -> (r: Vec<FeatureName>)
    ensures
        r@ == required(mode),
{
    let r = match mode {
        TraversalMode::Check | TraversalMode::CI => vec![
            FeatureName::Lint,
            FeatureName::Format,
            FeatureName::OrganizeImports,
        ],
        TraversalMode::Format => vec![FeatureName::Format],
        TraversalMode::Lint => vec![FeatureName::Lint],
        TraversalMode::Migrate => Vec::new(),
    };
    assert(r@ =~= required(mode));
    r
}

/// The support kind of the first required capability that is not supported,
/// checked in the order the mode lists them.
pub fn unsupported_reason(features: &FileFeatures, mode: TraversalMode) -> (r: Option<SupportKind>)
    ensures
        r == first_not_enabled(*features, required(mode)),
        r == reason_for(*features, mode),
{
    proof {
        lemma_reason_follows_table(*features, mode);
    }
    let names = required_features(mode);
    assert(names@.skip(0) =~= names@);
    let mut i: usize = 0;
    while i < names.len()
        invariant
            i <= names@.len(),
            names@ == required(mode),
            reason_for(*features, mode) == first_not_enabled(*features, required(mode)),
            first_not_enabled(*features, names@) == first_not_enabled(
                *features,
                names@.skip(i as int),
            ),
        decreases names.len() - i,
    {
        let kind = features.support_kind_for(names[i]);
        assert(names@.skip(i as int)[0] == names@[i as int]);
        if !kind.is_supported() {
            return Some(kind);
        }
        assert(names@.skip(i as int).drop_first() =~= names@.skip(i + 1));
        i = i + 1;
    }
    None
}

/// Classify a file from its resolved capabilities (`None` where the
/// workspace could not resolve them) under `mode`.
pub fn classify(features: &Option<FileFeatures>, mode: TraversalMode) -> (r: Verdict)
    ensures
        r == verdict(*features, mode),
{
    let f = match features {
        None => return Verdict::MissingHandler,
        Some(f) => f,
    };
    if f.is_ignored() {
        return Verdict::Ignored;
    }
    if f.is_not_supported() {
        return Verdict::Unhandled;
    }
    match unsupported_reason(f, mode) {
        Some(SupportKind::FileNotSupported) => Verdict::Unhandled,
        Some(SupportKind::FeatureNotEnabled) | Some(SupportKind::Ignored) => Verdict::Ignored,
        Some(SupportKind::Protected) => Verdict::Protected,
        _ => Verdict::Process,
    }
}

fn unhandled(path: &str) -> (r: Message)
    ensures
        is_unhandled_error(r, path@),
{
    Message::Error(
        FileDiagnostic {
            category: "files/missingHandler".to_owned(),
            path: path.to_owned(),
            verbose: true,
        },
    )
}

/// Decide what happens to the file at `path`. A file that is processed is
/// counted once and handed to the handler of the run's mode; any other file
/// gets its outcome here and is not counted. The migrate mode has no
/// handler: a file it would process is a caller's fault.
pub fn process_file(ctx: &mut TraversalOptions, path: &str, features: Option<FileFeatures>) -> (r:
    Step)
    requires
        old(ctx).processed_count() < u64::MAX,
        verdict(features, old(ctx).spec_mode()) == Verdict::Process ==> old(ctx).spec_mode()
            != TraversalMode::Migrate,
    ensures
        final(ctx).spec_mode() == old(ctx).spec_mode(),
        ({
            let v = verdict(features, old(ctx).spec_mode());
            &&& v == Verdict::Process ==> final(ctx).processed_count() == old(
                ctx,
            ).processed_count() + 1
            &&& v != Verdict::Process ==> final(ctx).processed_count() == old(
                ctx,
            ).processed_count()
            &&& match v {
                Verdict::MissingHandler | Verdict::Unhandled => match r {
                    Step::Done(Err(m)) => is_unhandled_error(m, path@),
                    _ => false,
                },
                Verdict::Ignored => r is Done && r->Done_0 is Ok && r->Done_0->Ok_0 is Ignored,
                Verdict::Protected => match r {
                    Step::Done(Ok(FileStatus::Protected(p))) => p@ == path@,
                    _ => false,
                },
                Verdict::Process => r == Step::Dispatch(handler_for(old(ctx).spec_mode())),
            }
        }),
{
    let mode = ctx.mode;
    match classify(&features, mode) {
        Verdict::MissingHandler | Verdict::Unhandled => Step::Done(Err(unhandled(path))),
        Verdict::Ignored => Step::Done(Ok(FileStatus::Ignored)),
        Verdict::Protected => Step::Done(Ok(FileStatus::Protected(path.to_owned()))),
        Verdict::Process => {
            ctx.increment_processed();
            match mode {
                TraversalMode::Lint => Step::Dispatch(Handler::Lint),
                TraversalMode::Format => Step::Dispatch(Handler::Format),
                _ => Step::Dispatch(Handler::Check),
            }
        },
    }
}

/// What to do with a file whose content a handler rewrote: the outcome to
/// report, and the new content to persist, if any.
#[derive(Debug)]
pub struct Change {
    pub status: FileStatus,
    pub write: Option<String>,
}

/// Turn a rewrite of `file_name` from `old` to `new` into an outcome. An
/// unchanged file needs nothing. In write mode the new content is persisted
/// and the file reported as a success; otherwise the file is left untouched
/// and the outcome is a diff of the given kind.
pub fn change_outcome(file_name: &str, old: &str, new: &str, diff_kind: DiffKind, write: bool) -> (r:
    Change)
    ensures
        old@ == new@ ==> r.status is Success && r.write is None,
        old@ != new@ && write ==> r.status is Success && r.write is Some && r.write.unwrap()@
            == new@,
        old@ != new@ && !write ==> r.write is None && match r.status {
            FileStatus::Message(Message::Diff { file_name: n, old: o, new: w, diff_kind: k }) => {
                &&& n@ == file_name@
                &&& o@ == old@
                &&& w@ == new@
                &&& k == diff_kind
            },
            _ => false,
        },
{
    let old_text = old.to_owned();
    let new_text = new.to_owned();
    if old_text == new_text {
        Change { status: FileStatus::Success, write: None }
    } else if write {
        Change { status: FileStatus::Success, write: Some(new_text) }
    } else {
        Change {
            status: FileStatus::Message(
                Message::Diff { file_name: file_name.to_owned(), old: old_text, new: new_text, diff_kind },
            ),
            write: None,
        }
    }
}

proof fn lemma_first_not_enabled(f: FileFeatures, names: Seq<FeatureName>, k: int)
    requires
        0 <= k < names.len(),
        support_for(f, names[k]) != SupportKind::Supported,
        forall|m: int| 0 <= m < k ==> support_for(f, #[trigger] names[m]) == SupportKind::Supported,
    ensures
        first_not_enabled(f, names) == Some(support_for(f, names[k])),
    decreases k,
{
    if k > 0 {
        assert(support_for(f, names[0]) == SupportKind::Supported);
        let rest = names.drop_first();
        assert forall|m: int| 0 <= m < k - 1 implies support_for(f, #[trigger] rest[m])
            == SupportKind::Supported by {
            assert(rest[m] == names[m + 1]);
        }
        assert(rest[k - 1] == names[k]);
        lemma_first_not_enabled(f, rest, k - 1);
    }
}

/// A file on which every capability is ignored or not enabled is ignored,
/// whatever the mode, and so is never counted as processed.
pub proof fn law_switched_off_file_is_ignored(f: FileFeatures, mode: TraversalMode)
    requires
        all_off(f),
    ensures
        verdict(Some(f), mode) == Verdict::Ignored,
{
}

/// A file whose first required capability that is not supported is
/// protected, is left as protected: no handler runs on it.
pub proof fn law_protected_file_is_left_alone(f: FileFeatures, mode: TraversalMode, k: int)
    requires
        0 <= k < required(mode).len(),
        support_for(f, required(mode)[k]) == SupportKind::Protected,
        forall|m: int|
            0 <= m < k ==> support_for(f, #[trigger] required(mode)[m]) == SupportKind::Supported,
    ensures
        verdict(Some(f), mode) == Verdict::Protected,
{
    lemma_first_not_enabled(f, required(mode), k);
    lemma_reason_follows_table(f, mode);
}

/// A file whose first required capability that is not supported does not
/// support the file's type, is reported as unhandled: no handler runs on it.
pub proof fn law_unsupported_file_is_an_error(f: FileFeatures, mode: TraversalMode, k: int)
    requires
        0 <= k < required(mode).len(),
        support_for(f, required(mode)[k]) == SupportKind::FileNotSupported,
        forall|m: int|
            0 <= m < k ==> support_for(f, #[trigger] required(mode)[m]) == SupportKind::Supported,
    ensures
        verdict(Some(f), mode) == Verdict::Unhandled,
{
    lemma_first_not_enabled(f, required(mode), k);
    lemma_reason_follows_table(f, mode);
}

} // verus!
