//! The speech model: fetching its file, and keeping it in memory while it is in use.

use vstd::prelude::*;

use crate::error;
use crate::error::AppError;
use crate::paths;
use crate::paths::same_path;
use crate::platform::MODEL_FILENAME;
use crate::progress;
use crate::text;

verus! {

/// How long, in nanoseconds, a loaded model may lie idle: five minutes.
pub const IDLE_TIMEOUT: u128 = 300_000_000_000;

/// Which model is in memory, and when it was last used.
pub struct ModelManager {
    loaded: bool,
    current_model_path: Option<String>,
    last_activity: u128,
}

/// What is known of a model in memory.
#[verifier::ext_equal]
pub ghost struct ModelView {
    pub loaded: bool,
    pub path: Option<Seq<char>>,
    pub last_activity: u128,
}

impl View for ModelManager {
    type V = ModelView;

    closed spec fn view(&self) -> ModelView {
        ModelView {
            loaded: self.loaded,
            path: match self.current_model_path {
                Some(path) => Some(path@),
                None => None,
            },
            last_activity: self.last_activity,
        }
    }
}

/// Whether the model at a path has to be loaded before use.
pub open spec fn needs_load(model: ModelView, path: Seq<char>) -> bool {
    !model.loaded || (model.path matches Some(current) && !paths::is_same_path(current, path))
}

/// The model in memory once there is room for the one at a path.
pub open spec fn prepared(model: ModelView, path: Seq<char>) -> ModelView {
    ModelView { loaded: model.loaded && !needs_load(model, path), ..model }
}

/// The model in memory once the one at a path was used, after loading it where that was needed.
pub open spec fn loaded(model: ModelView, path: Seq<char>, now: u128) -> ModelView {
    ModelView {
        loaded: true,
        path: if needs_load(model, path) {
            Some(path)
        } else {
            model.path
        },
        last_activity: now,
    }
}

/// Whether the model at a path is in memory.
pub open spec fn holds(model: ModelView, path: Seq<char>) -> bool {
    model.loaded && (model.path matches Some(current) && paths::is_same_path(current, path))
}

/// Whether a model has not been used for longer than the timeout. A clock that was set back
/// counts as no time at all.
pub open spec fn is_idle(model: ModelView, now: u128) -> bool {
    now - model.last_activity > IDLE_TIMEOUT
}

/// The model in memory once it was dropped, where it has lain idle for too long.
pub open spec fn after_a_while(model: ModelView, now: u128) -> ModelView {
    if is_idle(model, now) {
        ModelView { loaded: false, path: None, ..model }
    } else {
        model
    }
}

impl ModelManager {
    /// Whether the path of a loaded model is known.
    pub open spec fn wf(&self) -> bool {
        self@.loaded ==> self@.path is Some
    }

    /// A manager with no model in memory.
    pub fn new(now: u128) -> (manager: ModelManager)
        ensures
            manager.wf(),
            manager@ == (ModelView { loaded: false, path: None, last_activity: now }),
    {
        ModelManager { loaded: false, current_model_path: None, last_activity: now }
    }

    /// Whether a model is in memory.
    pub fn is_loaded(&self) -> (loaded: bool)
        ensures
            loaded == self@.loaded,
    {
        self.loaded
    }

    /// Makes room for the model at `model_path`: says whether it has to be loaded, and drops
    /// another model that is in memory.
    pub fn prepare_load(&mut self, model_path: &str) -> (needed: bool)
        requires
            old(self).wf(),
        ensures
            final(self).wf(),
            needed == needs_load(old(self)@, model_path@),
            final(self)@ == prepared(old(self)@, model_path@),
    {
        let needed = self.lacks(model_path);
        if needed {
            self.loaded = false;
        }
        needed
    }

    /// Whether the model at `model_path` has to be loaded before use.
    fn lacks(&self, model_path: &str) -> (needed: bool)
        ensures
            needed == needs_load(self@, model_path@),
    {
        if !self.loaded {
            true
        } else {
            match &self.current_model_path {
                Some(path) => !same_path(path.as_str(), model_path),
                None => false,
            }
        }
    }

    /// Has the model at `model_path` in memory: takes in what came of loading it, which counts
    /// where it had to be loaded, as `prepare_load` says. Returns whether it was loaded just now.
    pub fn get_or_load_whisper(&mut self, model_path: &str, load: Result<(), &str>, now: u128) -> (loaded_now:
        Result<bool, AppError>)
        requires
            old(self).wf(),
        ensures
            final(self).wf(),
            match loaded_now {
                Ok(just_now) => {
                    &&& just_now == needs_load(old(self)@, model_path@)
                    &&& just_now ==> load is Ok
                    &&& final(self)@ == loaded(old(self)@, model_path@, now)
                    &&& holds(final(self)@, model_path@)
                },
                Err(e) => {
                    &&& needs_load(old(self)@, model_path@)
                    &&& load matches Err(why) && error::says(
                        e,
                        "Failed to load Whisper model: "@ + why@,
                    )
                    &&& final(self)@ == prepared(old(self)@, model_path@)
                    &&& !final(self)@.loaded
                },
            },
    {
        let needed = self.prepare_load(model_path);
        if needed {
            match load {
                Ok(()) => {
                    self.loaded = true;
                    self.current_model_path = Some(model_path.to_string());
                },
                Err(why) => {
                    return Err(AppError::because("Failed to load Whisper model: ", why));
                },
            }
        }
        self.last_activity = now;
        Ok(needed)
    }

    /// Has the model at `model_path` in memory ahead of its use: takes in what came of loading
    /// it, which counts where it had to be loaded. Returns what to announce.
    pub fn preload_whisper(&mut self, model_path: &str, load: Result<(), &str>, now: u128) -> (status:
        Result<String, AppError>)
        requires
            old(self).wf(),
        ensures
            final(self).wf(),
            match status {
                Ok(text) => {
                    &&& text@ == "Model ready."@
                    &&& needs_load(old(self)@, model_path@) ==> load is Ok
                    &&& final(self)@ == loaded(old(self)@, model_path@, now)
                    &&& holds(final(self)@, model_path@)
                },
                Err(e) => {
                    &&& needs_load(old(self)@, model_path@)
                    &&& load matches Err(why) && error::says(
                        e,
                        "Failed to load Whisper model: "@ + why@,
                    )
                    &&& final(self)@ == prepared(old(self)@, model_path@)
                    &&& !final(self)@.loaded
                },
            },
    {
        match self.get_or_load_whisper(model_path, load, now) {
            Ok(_) => Ok("Model ready.".to_string()),
            Err(e) => Err(e),
        }
    }

    /// Drops the model once it has lain idle for too long. Returns whether it did.
    pub fn unload_if_idle(&mut self, now: u128) -> (unloaded: bool)
        requires
            old(self).wf(),
        ensures
            final(self).wf(),
            unloaded == (is_idle(old(self)@, now) && old(self)@.loaded),
            final(self)@ == after_a_while(old(self)@, now),
    {
        if now <= self.last_activity || now - self.last_activity <= IDLE_TIMEOUT {
            return false;
        }
        let unloaded = self.loaded;
        self.loaded = false;
        self.current_model_path = None;
        unloaded
    }
}

/// A model that was asked for is in memory afterwards, whatever was there before, and is not
/// loaded again when it is asked for again. Making room for it first changes nothing of that.
pub proof fn lemma_loaded_model_is_the_one_asked_for(
    before: ModelView,
    path: Seq<char>,
    now: u128,
    later: u128,
)
    requires
        before.loaded ==> before.path is Some,
    ensures
        ({
            let after = loaded(before, path, now);
            &&& holds(after, path)
            &&& !needs_load(after, path)
            &&& loaded(after, path, later) == (ModelView { last_activity: later, ..after })
            &&& loaded(prepared(before, path), path, now) == after
        }),
{
}

/// A model has to be loaded exactly where it is not the one in memory, and another one makes
/// room for it and is forgotten once it is loaded.
pub proof fn lemma_only_missing_models_are_loaded(model: ModelView, path: Seq<char>, now: u128)
    requires
        model.loaded ==> model.path is Some,
    ensures
        needs_load(model, path) <==> !holds(model, path),
        prepared(model, path).loaded <==> holds(model, path),
        holds(model, path) ==> prepared(model, path) == model,
        forall|other: Seq<char>|
            holds(loaded(model, path, now), other) ==> paths::is_same_path(other, path),
{
    assert forall|other: Seq<char>| holds(loaded(model, path, now), other) implies
        paths::is_same_path(other, path) by {
        assert(holds(loaded(model, path, now), path));
    }
}

/// A model stays in memory for five minutes after it was used, and is dropped at the first look
/// after that. However often one looks, looking does not count as a use.
pub proof fn lemma_used_model_stays_for_five_minutes(
    model: ModelView,
    path: Seq<char>,
    used: u128,
    look: u128,
    later: u128,
)
    requires
        model.loaded ==> model.path is Some,
        look <= later,
    ensures
        ({
            let in_use = loaded(model, path, used);
            let seen = after_a_while(in_use, look);
            &&& look <= used + 5 * 60 * 1_000_000_000 ==> seen == in_use && holds(seen, path)
            &&& look > used + 5 * 60 * 1_000_000_000 ==> !seen.loaded && needs_load(seen, path)
            &&& after_a_while(seen, later) == after_a_while(in_use, later)
        }),
{
}

/// What to do next to have the model's file.
#[derive(Clone, Copy, Debug, PartialEq, Eq, Structural)]
pub enum FetchStep {
    /// Look up the size of the model's file.
    LookUp,
    /// Create the directory that it is kept in.
    CreateDirectory,
    /// Remove what an earlier download left, if anything.
    RemoveStalePartial,
    /// Download into the partial file.
    Download,
    /// Remove the partial file of a download that failed.
    DropPartial,
    /// Give the partial file the model's name.
    Rename,
    /// The file is there.
    Ready,
}

/// What came of a step.
pub enum FetchOutcome {
    /// The file has this size.
    Size(u64),
    Done,
    /// The file system refused.
    Failed(String),
    /// The download failed.
    Broken(AppError),
}

/// Fetching the model's file.
pub struct ModelFetch {
    step: FetchStep,
    failure: Option<AppError>,
}

/// What follows a step that went well.
pub open spec fn next_step(step: FetchStep, outcome: FetchOutcome) -> FetchStep {
    match step {
        FetchStep::LookUp => match outcome {
            FetchOutcome::Size(size) if size > 0 => FetchStep::Ready,
            _ => FetchStep::CreateDirectory,
        },
        FetchStep::CreateDirectory => FetchStep::RemoveStalePartial,
        FetchStep::RemoveStalePartial => FetchStep::Download,
        FetchStep::Download => match outcome {
            FetchOutcome::Failed(_) => FetchStep::DropPartial,
            FetchOutcome::Broken(_) => FetchStep::DropPartial,
            _ => FetchStep::Rename,
        },
        FetchStep::DropPartial => FetchStep::DropPartial,
        FetchStep::Rename => FetchStep::Ready,
        FetchStep::Ready => FetchStep::Ready,
    }
}

/// Whether fetching ends with an error at a step.
pub open spec fn fails_at(step: FetchStep, outcome: FetchOutcome) -> bool {
    match step {
        FetchStep::CreateDirectory | FetchStep::RemoveStalePartial | FetchStep::Rename => {
            outcome is Failed || outcome is Broken
        },
        FetchStep::DropPartial => true,
        _ => false,
    }
}

/// The error that an outcome brings.
pub open spec fn is_error_of(e: AppError, outcome: FetchOutcome) -> bool {
    match outcome {
        FetchOutcome::Failed(why) => error::is_io(e, why@),
        FetchOutcome::Broken(failure) => e == failure,
        _ => false,
    }
}

/// What is announced when a step is about to be taken, coming from another one.
pub open spec fn announcement(from: FetchStep, to: FetchStep) -> Option<Seq<char>> {
    if to == FetchStep::Download {
        Some("Downloading model: 0% · ETA --"@)
    } else if from == FetchStep::Rename && to == FetchStep::Ready {
        Some("Model download complete."@)
    } else {
        None
    }
}

impl ModelFetch {
    /// The step that is to be taken.
    pub closed spec fn at(&self) -> FetchStep {
        self.step
    }

    /// Why the download failed.
    pub closed spec fn failed_with(&self) -> Option<AppError> {
        self.failure
    }

    /// Whether a partial file is dropped only because of an error.
    pub open spec fn wf(&self) -> bool {
        self.at() == FetchStep::DropPartial <==> self.failed_with() is Some
    }

    /// Fetching starts with a look at what is there.
    pub fn new() -> (fetch: ModelFetch)
        ensures
            fetch.wf(),
            fetch.at() == FetchStep::LookUp,
    {
        ModelFetch { step: FetchStep::LookUp, failure: None }
    }

    /// The step that is to be taken.
    pub fn step(&self) -> (step: FetchStep)
        ensures
            step == self.at(),
    {
        self.step
    }

    /// Takes in what came of the current step. Returns what to announce, or the error that
    /// fetching ends with: what the file system said, or why the download failed once its
    /// partial file has been dropped.
    pub fn ensure_model_available(self, outcome: FetchOutcome) -> (next: Result<
        (ModelFetch, Option<String>),
        AppError,
    >)
        requires
            self.wf(),
            self.at() != FetchStep::Ready,
        ensures
            next is Err <==> fails_at(self.at(), outcome),
            match next {
                Ok((fetch, status)) => {
                    &&& fetch.wf()
                    &&& fetch.at() == next_step(self.at(), outcome)
                    &&& fetch.failed_with() matches Some(e) ==> is_error_of(e, outcome)
                    &&& announcement(self.at(), fetch.at()) == match status {
                        Some(text) => Some(text@),
                        None => None,
                    }
                },
                Err(e) => if self.at() == FetchStep::DropPartial {
                    self.failed_with() == Some(e)
                } else {
                    is_error_of(e, outcome)
                },
            },
    {
        match self.step {
            FetchStep::LookUp => {
                let cached = match outcome {
                    FetchOutcome::Size(size) => size > 0,
                    _ => false,
                };
                let step = if cached {
                    FetchStep::Ready
                } else {
                    FetchStep::CreateDirectory
                };
                Ok((ModelFetch { step, failure: None }, None))
            },
            FetchStep::CreateDirectory => match outcome {
                FetchOutcome::Failed(why) => Err(AppError::Io(why)),
                FetchOutcome::Broken(e) => Err(e),
                _ => Ok((ModelFetch { step: FetchStep::RemoveStalePartial, failure: None }, None)),
            },
            FetchStep::RemoveStalePartial => match outcome {
                FetchOutcome::Failed(why) => Err(AppError::Io(why)),
                FetchOutcome::Broken(e) => Err(e),
                _ => Ok(
                    (
                        ModelFetch { step: FetchStep::Download, failure: None },
                        Some("Downloading model: 0% · ETA --".to_string()),
                    ),
                ),
            },
            FetchStep::Download => {
                let failure = match outcome {
                    FetchOutcome::Failed(why) => Some(AppError::Io(why)),
                    FetchOutcome::Broken(e) => Some(e),
                    _ => None,
                };
                let step = if failure.is_some() {
                    FetchStep::DropPartial
                } else {
                    FetchStep::Rename
                };
                Ok((ModelFetch { step, failure }, None))
            },
            FetchStep::DropPartial => match self.failure {
                Some(e) => Err(e),
                None => Ok((ModelFetch { step: FetchStep::DropPartial, failure: None }, None)),
            },
            FetchStep::Rename => match outcome {
                FetchOutcome::Failed(why) => Err(AppError::Io(why)),
                FetchOutcome::Broken(e) => Err(e),
                _ => Ok(
                    (
                        ModelFetch { step: FetchStep::Ready, failure: None },
                        Some("Model download complete.".to_string()),
                    ),
                ),
            },
            FetchStep::Ready => Ok((self, None)),
        }
    }
}

/// The model's file comes from a finished download or was there before: the partial file gets
/// the model's name only right after a download that went well, a failed download leads to its
/// partial file being dropped, and nothing leads from there to the model's file.
pub proof fn lemma_only_finished_downloads_are_kept(step: FetchStep, outcome: FetchOutcome)
    ensures
        next_step(step, outcome) == FetchStep::Rename ==> step == FetchStep::Download && !(
        outcome is Failed) && !(outcome is Broken),
        step == FetchStep::Download && (outcome is Failed || outcome is Broken) ==> next_step(
            step,
            outcome,
        ) == FetchStep::DropPartial,
        next_step(step, outcome) == FetchStep::Ready ==> step == FetchStep::Ready || step
            == FetchStep::Rename || (step == FetchStep::LookUp && (outcome matches FetchOutcome::Size(
            size,
        ) && size > 0)),
        step == FetchStep::DropPartial ==> fails_at(step, outcome),
{
}

/// Whether a step went well.
pub open spec fn went_well(outcome: FetchOutcome) -> bool {
    !(outcome is Failed) && !(outcome is Broken)
}

/// The step that fetching has come to with the given outcomes, one after another; none once it
/// has ended with an error.
pub open spec fn fetch_run(outcomes: Seq<FetchOutcome>) -> Option<FetchStep>
    decreases outcomes.len(),
{
    if outcomes.len() == 0 {
        Some(FetchStep::LookUp)
    } else {
        match fetch_run(outcomes.drop_last()) {
            Some(step) => if fails_at(step, outcomes.last()) {
                None
            } else {
                Some(next_step(step, outcomes.last()))
            },
            None => None,
        }
    }
}

proof fn lemma_fetch_goes_on(outcomes: Seq<FetchOutcome>, n: int)
    requires
        0 <= n < outcomes.len(),
    ensures
        fetch_run(outcomes.take(n + 1)) == match fetch_run(outcomes.take(n)) {
            Some(step) => if fails_at(step, outcomes[n]) {
                None
            } else {
                Some(next_step(step, outcomes[n]))
            },
            None => None,
        },
{
    assert(outcomes.take(n + 1).drop_last() =~= outcomes.take(n));
    assert(outcomes.take(n + 1).last() == outcomes[n]);
}

/// The model's file is ready after one look where it is there and not empty. Else it takes five
/// steps, all of which but the look have to go well, and a file that is empty counts as none.
/// Where the download fails, fetching ends with an error, whatever comes of cleaning up.
pub proof fn lemma_model_is_ready_after_every_step(outcomes: Seq<FetchOutcome>)
    requires
        0 < outcomes.len() <= 5,
    ensures
        ({
            let cached = outcomes[0] matches FetchOutcome::Size(size) && size > 0;
            &&& cached ==> (outcomes.len() == 1 ==> fetch_run(outcomes) == Some(FetchStep::Ready))
            &&& !cached ==> (fetch_run(outcomes) == Some(FetchStep::Ready) <==> outcomes.len() == 5
                && went_well(outcomes[1]) && went_well(outcomes[2]) && went_well(outcomes[3])
                && went_well(outcomes[4]))
            &&& !cached && outcomes.len() == 5 && !went_well(outcomes[3]) ==> fetch_run(outcomes)
                is None
        }),
{
    assert(outcomes.take(outcomes.len() as int) =~= outcomes);
    assert(fetch_run(outcomes.take(0)) == Some(FetchStep::LookUp));
    lemma_fetch_goes_on(outcomes, 0);
    if outcomes.len() > 1 {
        lemma_fetch_goes_on(outcomes, 1);
    }
    if outcomes.len() > 2 {
        lemma_fetch_goes_on(outcomes, 2);
    }
    if outcomes.len() > 3 {
        lemma_fetch_goes_on(outcomes, 3);
    }
    if outcomes.len() > 4 {
        lemma_fetch_goes_on(outcomes, 4);
    }
}

/// An error that ends fetching is the download's own, or ends with what the file system said.
pub proof fn lemma_fetch_failures_are_told(e: AppError, outcome: FetchOutcome)
    requires
        is_error_of(e, outcome),
    ensures
        !went_well(outcome),
        match outcome {
            FetchOutcome::Failed(why) => why@.is_suffix_of(error::error_text(e)),
            FetchOutcome::Broken(failure) => error::error_text(e) == error::error_text(failure),
            _ => false,
        },
{
    let told = error::error_text(e);
    if let FetchOutcome::Failed(why) = outcome {
        assert(told.skip(told.len() - why@.len()) =~= why@);
    }
}

/// A download is announced when it starts, in the words of one of which nothing has arrived, and
/// when its file has its name; nothing else is announced.
pub proof fn lemma_download_is_announced(
    from: FetchStep,
    outcome: FetchOutcome,
    total: u64,
    seconds_left: u64,
    megabytes: Seq<char>,
)
    requires
        total > 0,
    ensures
        announcement(from, next_step(from, outcome)) is Some <==> from
            == FetchStep::RemoveStalePartial || from == FetchStep::Rename,
        announcement(
            FetchStep::RemoveStalePartial,
            next_step(FetchStep::RemoveStalePartial, outcome),
        ) == Some(progress::download_status(0, Some(total), 0, seconds_left, megabytes)),
{
    reveal_strlit("Downloading model: 0% · ETA --");
    reveal_strlit("Downloading model: ");
    reveal_strlit("% · ETA ");
    reveal_strlit("--");
    text::lemma_decimal_is_positional(0, 0);
    assert("Downloading model: 0% · ETA --"@ =~= progress::download_status(
        0,
        Some(total),
        0,
        seconds_left,
        megabytes,
    ));
}

/// The name of the file that the model is downloaded into.
pub fn partial_file_name() -> (name: String)
    ensures
        name@ == MODEL_FILENAME@ + ".partial"@,
{
    let mut name = MODEL_FILENAME.to_string();
    name.append(".partial");
    name
}

} // verus!
