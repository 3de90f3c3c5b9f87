//! Falling back to another audio output when the USB device cannot be used.
use vstd::prelude::*;

use crate::error::{Result, Uac2Error};

verus! {

/// An audio output to fall back to. Implemented by the users of the library; nothing
/// is assumed of what its methods return.
pub trait FallbackAudioOutput: Send + Sync {
    /// Switches audio to this output.
    fn activate(&self) -> Result<()>;

    /// Whether the output can be switched to now.
    fn is_available(&self) -> bool;

    /// The output's name.
    fn name(&self) -> &str;
}

/// The state of a [`FallbackHandler`]: the registered outputs in the order they were
/// registered, and the position of the active one.
pub struct FallbackState {
    pub outputs: Seq<Box<dyn FallbackAudioOutput>>,
    pub active: Option<usize>,
}

/// The outputs to fall back to, tried in the order they were registered.
pub struct FallbackHandler {
    fallback_outputs: Vec<Box<dyn FallbackAudioOutput>>,
    active_fallback: Option<usize>,
}

impl View for FallbackHandler {
    type V = FallbackState;

    closed spec fn view(&self) -> FallbackState {
        FallbackState { outputs: self.fallback_outputs@, active: self.active_fallback }
    }
}

/// The message when no fallback output could be activated.
pub open spec fn no_fallback_message() -> Seq<char> {
    "No fallback audio output available"@
}

/// An output's answers when tried: whether it was available, and whether it then
/// activated without error.
pub open spec fn usable(answer: (bool, bool)) -> bool {
    answer.0 && answer.1
}

/// The position of the first output whose answers make it usable, if any.
pub open spec fn first_usable_of(answers: Seq<(bool, bool)>) -> Option<usize> {
    if exists|i: int| 0 <= i < answers.len() && usable(#[trigger] answers[i]) {
        Some(
            (choose|i: int|
                0 <= i < answers.len() && usable(#[trigger] answers[i]) && forall|j: int|
                    0 <= j < i ==> !usable(#[trigger] answers[j])) as usize,
        )
    } else {
        None
    }
}

/// The answers that a scan of `registered` outputs can have collected: every output
/// before the last was unusable, and the scan stopped early only at a usable output.
pub open spec fn scan_answers(answers: Seq<(bool, bool)>, registered: nat) -> bool {
    &&& answers.len() <= registered
    &&& forall|j: int| 0 <= j < answers.len() - 1 ==> !usable(#[trigger] answers[j])
    &&& answers.len() < registered ==> answers.len() > 0 && usable(answers.last())
    &&& forall|j: int| 0 <= j < answers.len() ==> (#[trigger] answers[j]).1 ==> answers[j].0
}

/// Asks an output whether it is available.
pub fn is_output_available(output: &Box<dyn FallbackAudioOutput>) -> bool {
    output.is_available()
}

/// Asks an output to activate.
pub fn activate_output(output: &Box<dyn FallbackAudioOutput>) -> Result<()> {
    output.activate()
}

/// Asks an output for its name.
pub fn output_name(output: &Box<dyn FallbackAudioOutput>) -> &str {
    output.name()
}

/// `answers` are answers that `outputs` gave when asked in turn, through
/// [`is_output_available`] and, where available, [`activate_output`]: each answer is one
/// that a call on that very output returned.
pub open spec fn answers_given(
    outputs: Seq<Box<dyn FallbackAudioOutput>>,
    answers: Seq<(bool, bool)>,
) -> bool {
    forall|j: int|
        0 <= j < answers.len() ==> {
            &&& call_ensures(is_output_available, (&outputs[j],), (#[trigger] answers[j]).0)
            &&& answers[j].0 ==> exists|res: Result<()>|
                call_ensures(activate_output, (&outputs[j],), res) && (res is Ok <==> answers[j].1)
        }
}

/// Decides which output becomes active from the answers the outputs gave, in order:
/// the first that was available and activated without error; none if there is none.
pub fn first_usable(answers: &Vec<(bool, bool)>) -> (r: Option<usize>)
    ensures
        r == first_usable_of(answers@),
        r matches Some(i) ==> i < answers@.len() && usable(answers@[i as int]) && forall|j: int|
            0 <= j < i ==> !usable(#[trigger] answers@[j]),
        r is None ==> forall|j: int| 0 <= j < answers@.len() ==> !usable(#[trigger] answers@[j]),
{
    let mut i: usize = 0;
    while i < answers.len()
        invariant
            0 <= i <= answers@.len(),
            forall|j: int| 0 <= j < i ==> !usable(#[trigger] answers@[j]),
        decreases answers@.len() - i,
    {
        let (available, activated) = answers[i];
        if available && activated {
            proof {
                let s = answers@;
                assert(usable(s[i as int]));
                let c = choose|k: int|
                    0 <= k < s.len() && usable(#[trigger] s[k]) && forall|j: int|
                        0 <= j < k ==> !usable(#[trigger] s[j]);
                if c < i {
                    assert(!usable(s[c]));
                } else if c > i {
                    assert(!usable(s[i as int]));
                }
            }
            return Some(i);
        }
        i = i + 1;
    }
    None
}

impl FallbackHandler {
    /// The active output is a registered one.
    #[verifier::type_invariant]
    closed spec fn inv(self) -> bool {
        self.active_fallback matches Some(i) ==> i < self.fallback_outputs@.len()
    }

    /// A handler with no outputs.
    pub fn new() -> (r: Self)
        ensures
            r@.outputs.len() == 0,
            r@.active is None,
    {
        Self { fallback_outputs: Vec::new(), active_fallback: None }
    }

    /// Adds an output, tried after those registered before it.
    pub fn register_fallback(&mut self, output: Box<dyn FallbackAudioOutput>)
        ensures
            final(self)@.outputs == old(self)@.outputs.push(output),
            final(self)@.active == old(self)@.active,
    {
        let mut taken = FallbackHandler::new();
        std::mem::swap(&mut taken, self);
        proof {
            use_type_invariant(&taken);
        }
        let FallbackHandler { mut fallback_outputs, active_fallback } = taken;
        let ghost before = fallback_outputs@;
        fallback_outputs.push(output);
        proof {
            vstd::seq::axiom_seq_push_len(before, output);
        }
        *self = FallbackHandler { fallback_outputs, active_fallback };
    }

    /// Tries the registered outputs in order: asks each whether it is available and, if
    /// it is, activates it, stopping at the first that activates without error; that one
    /// becomes the active output. Where none does, or none is registered, the request is
    /// refused with `NotSupported` and the active output stays as it was.
    ///
    /// The answers are given by the outputs' own implementations: the contract says that
    /// the outcome is [`first_usable`] of the answers collected by such a scan.
    pub fn activate_fallback(&mut self) -> (r: Result<()>)
        ensures
            final(self)@.outputs == old(self)@.outputs,
            exists|answers: Seq<(bool, bool)>|
                {
                    &&& #[trigger] scan_answers(answers, old(self)@.outputs.len())
                    &&& answers_given(old(self)@.outputs, answers)
                    &&& first_usable_of(answers) is Some ==> r is Ok && final(self)@.active
                        == first_usable_of(answers)
                    &&& first_usable_of(answers) is None ==> r is Err && answers.len() == old(
                        self,
                    )@.outputs.len()
                },
            r is Ok ==> final(self)@.active is Some,
            r is Err ==> (r matches Err(Uac2Error::NotSupported(m)) && m@ == no_fallback_message()
                && final(self)@ == old(self)@),
            old(self)@.outputs.len() == 0 ==> r is Err,
    {
        proof {
            use_type_invariant(&*self);
        }
        let n = self.fallback_outputs.len();
        let mut answers: Vec<(bool, bool)> = Vec::new();
        let mut done = false;
        let mut index: usize = 0;
        while index < n && !done
            invariant
                n == self@.outputs.len(),
                0 <= index <= n,
                self@ == old(self)@,
                answers@.len() == index,
                done ==> index > 0 && usable(answers@.last()),
                forall|j: int| 0 <= j < index - (if done { 1int } else { 0int }) ==> !usable(
                    #[trigger] answers@[j],
                ),
                forall|j: int| 0 <= j < answers@.len() ==> (#[trigger] answers@[j]).1 ==> answers@[j].0,
                answers_given(self@.outputs, answers@),
            decreases n - index,
        {
            let ask = is_output_available;
            let switch = activate_output;
            let output = &self.fallback_outputs[index];
            let available = ask(output);
            let activated = if available {
                let res = switch(output);
                res.is_ok()
            } else {
                false
            };
            let ghost prev = answers@;
            answers.push((available, activated));
            proof {
                assert forall|j: int| 0 <= j < answers@.len() implies {
                    &&& call_ensures(is_output_available, (&self@.outputs[j],), (#[trigger] answers@[j]).0)
                    &&& answers@[j].0 ==> exists|res: Result<()>|
                        call_ensures(activate_output, (&self@.outputs[j],), res) && (res is Ok <==> answers@[j].1)
                } by {
                    if j < prev.len() {
                        assert(answers@[j] == prev[j]);
                    }
                }
            }
            done = available && activated;
            index = index + 1;
        }
        proof {
            assert(scan_answers(answers@, old(self)@.outputs.len()));
        }
        match first_usable(&answers) {
            Some(i) => {
                self.active_fallback = Some(i);
                Ok(())
            },
            None => Err(Uac2Error::NotSupported(String::from_str("No fallback audio output available"))),
        }
    }

    /// Makes no output active.
    pub fn deactivate_fallback(&mut self)
        ensures
            final(self)@ == (FallbackState { active: None, ..old(self)@ }),
    {
        if self.active_fallback.is_some() {
            self.active_fallback = None;
        }
    }

    /// Whether an output is active.
    pub fn has_active_fallback(&self) -> (r: bool)
        ensures
            r == self@.active is Some,
    {
        self.active_fallback.is_some()
    }

    /// The name of the active output, if one is active: what that output's own `name`
    /// gives, through [`output_name`].
    pub fn active_fallback_name(&self) -> (r: Option<&str>)
        ensures
            r is Some == self@.active is Some,
            r matches Some(name) ==> call_ensures(
                output_name,
                (&self@.outputs[self@.active->0 as int],),
                name,
            ),
    {
        proof {
            use_type_invariant(self);
        }
        match self.active_fallback {
            Some(index) => {
                let name_of = output_name;
                Some(name_of(&self.fallback_outputs[index]))
            },
            None => None,
        }
    }
}

impl Default for FallbackHandler {
    fn default() -> (r: Self)
        ensures
            r@.outputs.len() == 0,
            r@.active is None,
    {
        Self::new()
    }
}

/// The output chosen from the answers is the first one that was available and activated:
/// every output before it was unavailable or failed to activate; there is none exactly
/// when no output was both available and activated.
pub proof fn law_first_usable(answers: Seq<(bool, bool)>)
    requires
        answers.len() <= usize::MAX,
    ensures
        first_usable_of(answers) matches Some(i) ==> {
            &&& i < answers.len()
            &&& answers[i as int].0 && answers[i as int].1
            &&& forall|j: int| 0 <= j < i ==> !(#[trigger] answers[j]).0 || !answers[j].1
        },
        first_usable_of(answers) is None <==> forall|j: int|
            0 <= j < answers.len() ==> !(#[trigger] answers[j]).0 || !answers[j].1,
{
    if exists|i: int| 0 <= i < answers.len() && usable(#[trigger] answers[i]) {
        let w = choose|i: int| 0 <= i < answers.len() && usable(#[trigger] answers[i]);
        lemma_first_usable_exists(answers, w);
        let c = choose|i: int|
            0 <= i < answers.len() && usable(#[trigger] answers[i]) && forall|j: int|
                0 <= j < i ==> !usable(#[trigger] answers[j]);
        assert(first_usable_of(answers) == Some(c as usize));
        assert((c as usize) as int == c);
        assert forall|j: int| 0 <= j < c implies !(#[trigger] answers[j]).0 || !answers[j].1 by {
            assert(!usable(answers[j]));
        }
    } else {
        assert forall|j: int| 0 <= j < answers.len() implies !(#[trigger] answers[j]).0
            || !answers[j].1 by {
            if usable(answers[j]) {
                assert(exists|i: int| 0 <= i < answers.len() && usable(#[trigger] answers[i]));
            }
        }
    }
}

proof fn lemma_first_usable_exists(answers: Seq<(bool, bool)>, w: int)
    requires
        0 <= w < answers.len(),
        usable(answers[w]),
    ensures
        exists|i: int|
            0 <= i < answers.len() && usable(#[trigger] answers[i]) && forall|j: int|
                0 <= j < i ==> !usable(#[trigger] answers[j]),
    decreases w,
{
    if exists|k: int| 0 <= k < w && usable(#[trigger] answers[k]) {
        let k = choose|k: int| 0 <= k < w && usable(#[trigger] answers[k]);
        lemma_first_usable_exists(answers, k);
    } else {
        assert(forall|j: int| 0 <= j < w ==> !usable(#[trigger] answers[j]));
    }
}

} // verus!
