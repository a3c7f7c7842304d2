//! Waking models and putting them to sleep.
use vstd::prelude::*;
use crate::text;

verus! {

/// How deeply a model sleeps.
#[derive(Debug, Clone, Copy, PartialEq, Eq, Structural)]
pub enum SleepLevel {
    /// Its weights are kept in main memory; it wakes fast.
    L1,
    /// Its weights are dropped; it wakes slowly.
    L2,
}

impl Default for SleepLevel {
    fn default() -> (level: SleepLevel)
        ensures
            level == SleepLevel::L1,
    {
        SleepLevel::L1
    }
}

impl SleepLevel {
    /// The number of a level.
    pub open spec fn number(self) -> u8 {
        match self {
            SleepLevel::L1 => 1,
            SleepLevel::L2 => 2,
        }
    }

    /// The level of a number: the deeper one for two, and the other for any other number.
    pub open spec fn numbered(number: u8) -> SleepLevel {
        if number == 2 {
            SleepLevel::L2
        } else {
            SleepLevel::L1
        }
    }

    /// The number of a level.
    pub fn as_u8(&self) -> (number: u8)
        ensures
            number == self.number(),
    {
        match self {
            SleepLevel::L1 => 1,
            SleepLevel::L2 => 2,
        }
    }

    /// The name of a level.
    pub fn to_text(&self) -> (name: String)
        ensures
            name@ == match *self {
                SleepLevel::L1 => "L1"@,
                SleepLevel::L2 => "L2"@,
            },
    {
        match self {
            SleepLevel::L1 => "L1".to_owned(),
            SleepLevel::L2 => "L2".to_owned(),
        }
    }
}

impl vstd::std_specs::convert::FromSpecImpl<u8> for SleepLevel {
    open spec fn obeys_from_spec() -> bool {
        true
    }

    open spec fn from_spec(number: u8) -> SleepLevel {
        SleepLevel::numbered(number)
    }
}

impl From<u8> for SleepLevel {
    fn from(number: u8) -> SleepLevel {
        match number {
            2 => SleepLevel::L2,
            _ => SleepLevel::L1,
        }
    }
}

/// A level is found again by its number.
pub proof fn law_level_has_its_number(level: SleepLevel)
    ensures
        SleepLevel::numbered(level.number()) == level,
{
}

impl SleepLevel {
    /// The deeper of two levels.
    pub open spec fn deeper(self, other: SleepLevel) -> SleepLevel {
        if self == SleepLevel::L2 {
            self
        } else {
            other
        }
    }

    /// The deeper of two levels.
    pub fn deeper_of(self, other: SleepLevel) -> (level: SleepLevel)
        ensures
            level == self.deeper(other),
    {
        match self {
            SleepLevel::L2 => self,
            SleepLevel::L1 => other,
        }
    }
}

/// Why a model could not be made ready.
#[derive(Debug)]
pub enum SwitchError {
    /// No such model is registered.
    ModelNotFound(String),
    /// The model could not be woken.
    WakeFailed { model: String, reason: String },
    /// The model could not be put to sleep.
    SleepFailed { model: String, reason: String },
    /// The model was woken and did not become ready.
    NotReady(String),
    /// The request waited too long.
    Timeout,
    /// Something went wrong inside the switcher.
    Internal(String),
    /// Something went wrong in what the callbacks rely on.
    Callback(String),
}

impl SwitchError {
    /// What an error says.
    pub open spec fn text(self) -> Seq<char> {
        match self {
            SwitchError::ModelNotFound(model) => "model not found: "@ + model@,
            SwitchError::WakeFailed { model, reason } => "failed to wake model '"@ + model@ + "': "@
                + reason@,
            SwitchError::SleepFailed { model, reason } => "failed to sleep model '"@ + model@
                + "': "@ + reason@,
            SwitchError::NotReady(model) => "model '"@ + model@ + "' is not ready"@,
            SwitchError::Timeout => "request timed out waiting for model switch"@,
            SwitchError::Internal(reason) => "internal error: "@ + reason@,
            SwitchError::Callback(reason) => "callback error: "@ + reason@,
        }
    }

    /// What an error says.
    pub fn message(&self) -> (message: String)
        ensures
            message@ == self.text(),
    {
        match self {
            SwitchError::ModelNotFound(model) => "model not found: ".to_owned().concat(
                model.as_str(),
            ),
            SwitchError::WakeFailed { model, reason } => "failed to wake model '".to_owned().concat(
                model.as_str(),
            ).concat("': ").concat(reason.as_str()),
            SwitchError::SleepFailed { model, reason } => "failed to sleep model '".to_owned().concat(
                model.as_str(),
            ).concat("': ").concat(reason.as_str()),
            SwitchError::NotReady(model) => "model '".to_owned().concat(model.as_str()).concat(
                "' is not ready",
            ),
            SwitchError::Timeout => "request timed out waiting for model switch".to_owned(),
            SwitchError::Internal(reason) => "internal error: ".to_owned().concat(reason.as_str()),
            SwitchError::Callback(reason) => "callback error: ".to_owned().concat(reason.as_str()),
        }
    }
}

/// Wakes models and puts them to sleep.
pub trait ModelSwitcherCallbacks: Send + Sync {
    /// Wakes a model, however deeply it sleeps.
    fn wake_model(&mut self, model: &str) -> Result<(), SwitchError>;

    /// Puts a model to sleep, as deeply as told.
    fn sleep_model(&mut self, model: &str, level: SleepLevel) -> Result<(), SwitchError>;

    /// Whether a model can serve requests.
    fn is_ready(&self, model: &str) -> bool;

    /// The models that are switched between.
    fn registered_models(&self) -> Vec<String>;

    /// Prepares for the first switch. Unless told otherwise, there is nothing to prepare.
    fn initialize(&self) -> (result: Result<(), SwitchError>)
        default_ensures
            result == Ok::<(), SwitchError>(()),
    {
        Ok(())
    }

    /// Cleans up after the last switch. Unless told otherwise, there is nothing to clean up.
    fn shutdown(&self) -> (result: Result<(), SwitchError>)
        default_ensures
            result == Ok::<(), SwitchError>(()),
    {
        Ok(())
    }
}

/// Callbacks for models that are always awake.
#[derive(Debug)]
pub struct NoOpCallbacks {
    models: Vec<String>,
}

impl NoOpCallbacks {
    /// The models, in order.
    pub closed spec fn known(self) -> Seq<Seq<char>> {
        text::texts(self.models@)
    }

    /// Callbacks for some models.
    pub fn new(models: Vec<String>) -> (callbacks: NoOpCallbacks)
        ensures
            callbacks.known() == text::texts(models@),
    {
        NoOpCallbacks { models }
    }

    fn knows(&self, model: &str) -> (yes: bool)
        ensures
            yes == self.known().contains(model@),
    {
        let mut i: usize = 0;
        while i < self.models.len()
            invariant
                i <= self.models.len(),
                forall|j: int| 0 <= j < i ==> (#[trigger] self.models@[j])@ != model@,
            decreases self.models.len() - i,
        {
            if text::same_text(self.models[i].as_str(), model) {
                assert(self.known()[i as int] == model@);
                return true;
            }
            i = i + 1;
        }
        proof {
            if self.known().contains(model@) {
                let j = choose|j: int| 0 <= j < self.known().len() && self.known()[j] == model@;
                assert(self.models@[j]@ == model@);
            }
        }
        false
    }
}

impl ModelSwitcherCallbacks for NoOpCallbacks {
    /// Succeeds for every model that is known.
    fn wake_model(&mut self, model: &str) -> (result: Result<(), SwitchError>)
        ensures
            *final(self) == *old(self),
            match result {
                Ok(_) => old(self).known().contains(model@),
                Err(e) => !old(self).known().contains(model@) && (e matches SwitchError::ModelNotFound(m)
                    && m@ == model@),
            },
    {
        if self.knows(model) {
            Ok(())
        } else {
            Err(SwitchError::ModelNotFound(model.to_owned()))
        }
    }

    /// Succeeds for every model that is known.
    fn sleep_model(&mut self, model: &str, _level: SleepLevel) -> (result: Result<(), SwitchError>)
        ensures
            *final(self) == *old(self),
            match result {
                Ok(_) => old(self).known().contains(model@),
                Err(e) => !old(self).known().contains(model@) && (e matches SwitchError::ModelNotFound(m)
                    && m@ == model@),
            },
    {
        if self.knows(model) {
            Ok(())
        } else {
            Err(SwitchError::ModelNotFound(model.to_owned()))
        }
    }

    /// Whether a model is known.
    fn is_ready(&self, model: &str) -> (ready: bool)
        ensures
            ready == self.known().contains(model@),
    {
        self.knows(model)
    }

    /// The models, in order.
    fn registered_models(&self) -> (models: Vec<String>)
        ensures
            text::texts(models@) == self.known(),
    {
        let mut models: Vec<String> = Vec::new();
        let mut i: usize = 0;
        while i < self.models.len()
            invariant
                i <= self.models.len(),
                text::texts(models@) == self.known().take(i as int),
            decreases self.models.len() - i,
        {
            let ghost before = models@;
            models.push(self.models[i].clone());
            assert(text::texts(models@) =~= text::texts(before).push(self.models@[i as int]@));
            assert(self.known().take(i + 1) =~= self.known().take(i as int).push(self.known()[i as int]));
            i = i + 1;
        }
        assert(self.known().take(self.known().len() as int) == self.known());
        models
    }
}

/// The number 2 stands for the second level, every other for the first; of two levels the second is the
/// deeper one.
pub proof fn law_levels(number: u8, a: SleepLevel, b: SleepLevel)
    ensures
        number == 2 <==> SleepLevel::numbered(number) == SleepLevel::L2,
        SleepLevel::L1.number() == 1,
        SleepLevel::L2.number() == 2,
        a.deeper(b) == SleepLevel::L2 <==> a == SleepLevel::L2 || b == SleepLevel::L2,
{
}

/// What is told of an error holds the model or the reason that it is about.
pub proof fn law_errors_name_their_cause(error: SwitchError)
    ensures
        match error {
            SwitchError::ModelNotFound(model) => text::occurs_in(model@, error.text()),
            SwitchError::WakeFailed { model, reason } => text::occurs_in(model@, error.text())
                && text::occurs_in(reason@, error.text()),
            SwitchError::SleepFailed { model, reason } => text::occurs_in(model@, error.text())
                && text::occurs_in(reason@, error.text()),
            SwitchError::NotReady(model) => text::occurs_in(model@, error.text()),
            SwitchError::Timeout => true,
            SwitchError::Internal(reason) => text::occurs_in(reason@, error.text()),
            SwitchError::Callback(reason) => text::occurs_in(reason@, error.text()),
        },
{
    let none = Seq::<char>::empty();
    match error {
        SwitchError::ModelNotFound(model) => {
            let head = "model not found: "@;
            assert(head + model@ =~= head + model@ + none);
            text::lemma_part_occurs(head, model@, none);
        },
        SwitchError::WakeFailed { model, reason } => {
            let head = "failed to wake model '"@;
            let tail = "': "@ + reason@;
            assert(error.text() =~= head + model@ + tail);
            text::lemma_part_occurs(head, model@, tail);
            let before = head + model@ + "': "@;
            assert(error.text() =~= before + reason@ + none);
            text::lemma_part_occurs(before, reason@, none);
        },
        SwitchError::SleepFailed { model, reason } => {
            let head = "failed to sleep model '"@;
            let tail = "': "@ + reason@;
            assert(error.text() =~= head + model@ + tail);
            text::lemma_part_occurs(head, model@, tail);
            let before = head + model@ + "': "@;
            assert(error.text() =~= before + reason@ + none);
            text::lemma_part_occurs(before, reason@, none);
        },
        SwitchError::NotReady(model) => {
            text::lemma_part_occurs("model '"@, model@, "' is not ready"@);
        },
        SwitchError::Timeout => {},
        SwitchError::Internal(reason) => {
            let head = "internal error: "@;
            assert(head + reason@ =~= head + reason@ + none);
            text::lemma_part_occurs(head, reason@, none);
        },
        SwitchError::Callback(reason) => {
            let head = "callback error: "@;
            assert(head + reason@ =~= head + reason@ + none);
            text::lemma_part_occurs(head, reason@, none);
        },
    }
}

} // verus!
