//! Process-wide V8 start-up: which JIT mode the process runs in, and what each
//! request for a mode is answered.

use vstd::prelude::*;
use vstd::string::*;

use crate::text::{decimal_int, decimal_nat, integer_text, opt_str, parse_u32, parsed_u32};
use crate::text_laws::{law_numbers_are_read_as_written, law_only_digits_are_numbers};

verus! {

/// The environment variable that limits the worker threads of the process.
pub const TOKIO_WORKER_THREADS_ENV_VAR: &'static str = "TOKIO_WORKER_THREADS";

/// The flag that keeps V8 from generating executable code.
pub const JITLESS_FLAG: &'static str = "--jitless";

/// Controls whether V8 may generate executable code at runtime.
#[derive(Clone, Copy, Debug, Eq, PartialEq, Structural)]
pub enum V8JitMode {
    Enabled,
    Disabled,
}

impl Default for V8JitMode {
    fn default() -> (mode: Self)
        ensures
            mode == V8JitMode::Enabled,
    {
        V8JitMode::Enabled
    }
}

impl V8JitMode {
    /// How messages name the mode.
    pub open spec fn description_text(self) -> Seq<char> {
        match self {
            V8JitMode::Enabled => "enabled"@,
            V8JitMode::Disabled => "disabled"@,
        }
    }

    /// How messages name the mode.
    pub fn description(self) -> (text: &'static str)
        ensures
            text@ == self.description_text(),
    {
        match self {
            V8JitMode::Enabled => "enabled",
            V8JitMode::Disabled => "disabled",
        }
    }
}

/// A V8 that has started.
#[derive(Debug, PartialEq)]
pub struct V8Initialization {
    pub jit_mode: V8JitMode,
}

/// How an attempt to start V8 ended: the mode it runs in, or what went wrong.
pub open spec fn outcome_view(outcome: Result<V8Initialization, String>) -> Result<
    V8JitMode,
    Seq<char>,
> {
    match outcome {
        Ok(initialization) => Ok(initialization.jit_mode),
        Err(error_text) => Err(error_text@),
    }
}

/// The text of an answer to a request.
pub open spec fn answer_view(answer: Result<(), String>) -> Result<(), Seq<char>> {
    match answer {
        Ok(()) => Ok(()),
        Err(error_text) => Err(error_text@),
    }
}

/// What a request for a JIT mode is answered once an attempt to start V8 has
/// ended.
pub open spec fn mode_answer(
    outcome: Result<V8JitMode, Seq<char>>,
    requested: V8JitMode,
) -> Result<(), Seq<char>> {
    match outcome {
        Ok(mode) => if mode == requested {
            Ok(())
        } else {
            Err("V8 was already initialized with JIT "@ + mode.description_text())
        },
        Err(error_text) => Err(error_text),
    }
}

/// What a request for a running V8, whatever its mode, is answered once an
/// attempt to start it has ended.
pub open spec fn running_answer(outcome: Result<V8JitMode, Seq<char>>) -> Result<(), Seq<char>> {
    match outcome {
        Ok(_) => Ok(()),
        Err(error_text) => Err(error_text),
    }
}

/// The outcome of the one attempt that a process makes to start V8.
pub struct V8InitializationCell {
    outcome: Option<Result<V8Initialization, String>>,
}

impl View for V8InitializationCell {
    type V = Option<Result<V8JitMode, Seq<char>>>;

    closed spec fn view(&self) -> Option<Result<V8JitMode, Seq<char>>> {
        match self.outcome {
            Some(outcome) => Some(outcome_view(outcome)),
            None => None,
        }
    }
}

impl V8InitializationCell {
    /// A process that has made no attempt yet.
    pub fn new() -> (cell: Self)
        ensures
            cell@ is None,
    {
        V8InitializationCell { outcome: None }
    }

    /// Makes the attempt with `start`, unless one was made before.
    fn get_or_init<F: FnOnce(V8JitMode) -> Result<V8Initialization, String>>(
        &mut self,
        jit_mode: V8JitMode,
        start: F,
    )
        requires
            old(self)@ is None ==> call_requires(start, (jit_mode,)),
        ensures
            final(self)@ is Some,
            old(self)@ is Some ==> final(self)@ == old(self)@,
            old(self)@ is None ==> exists|outcome: Result<V8Initialization, String>|
                #[trigger] call_ensures(start, (jit_mode,), outcome) && final(self)@ == Some(
                    outcome_view(outcome),
                ),
    {
        if self.outcome.is_none() {
            let outcome = start(jit_mode);
            self.outcome = Some(outcome);
        }
    }
}

/// Initializes the process-wide V8 platform with the requested JIT mode.
///
/// Call this before executing any code-mode cells when JIT must be disabled.
/// V8 cannot change JIT mode after initialization, so a later call requesting
/// a different mode returns an error. Code mode initializes V8 with JIT enabled
/// by default when this function has not been called explicitly.
///
/// `start` starts V8; it is called on the first request only, and every later
/// request is answered from its outcome, which `cell` keeps.
pub fn initialize_v8<F: FnOnce(V8JitMode) -> Result<V8Initialization, String>>(
    cell: &mut V8InitializationCell,
    jit_mode: V8JitMode,
    start: F,
) -> (answer: Result<(), String>)
    requires
        old(cell)@ is None ==> call_requires(start, (jit_mode,)),
    ensures
        final(cell)@ matches Some(outcome) && answer_view(answer) == mode_answer(outcome, jit_mode),
        old(cell)@ is Some ==> final(cell)@ == old(cell)@,
        old(cell)@ is None ==> exists|outcome: Result<V8Initialization, String>|
            #[trigger] call_ensures(start, (jit_mode,), outcome) && final(cell)@ == Some(
                outcome_view(outcome),
            ),
{
    cell.get_or_init(jit_mode, start);
    match &cell.outcome {
        Some(Ok(initialization)) => {
            if initialization.jit_mode == jit_mode {
                Ok(())
            } else {
                let mut error_text = "V8 was already initialized with JIT ".to_owned();
                error_text.append(initialization.jit_mode.description());
                Err(error_text)
            }
        },
        Some(Err(error_text)) => Err(error_text.clone()),
        None => Ok(()),
    }
}

/// Makes sure that V8 has started, with JIT enabled where nothing was asked
/// for before.
pub fn ensure_v8_initialized<F: FnOnce(V8JitMode) -> Result<V8Initialization, String>>(
    cell: &mut V8InitializationCell,
    start: F,
) -> (answer: Result<(), String>)
    requires
        old(cell)@ is None ==> call_requires(start, (V8JitMode::Enabled,)),
    ensures
        final(cell)@ matches Some(outcome) && answer_view(answer) == running_answer(outcome),
        old(cell)@ is Some ==> final(cell)@ == old(cell)@,
        old(cell)@ is None ==> exists|outcome: Result<V8Initialization, String>|
            #[trigger] call_ensures(start, (V8JitMode::Enabled,), outcome) && final(cell)@ == Some(
                outcome_view(outcome),
            ),
{
    cell.get_or_init(V8JitMode::Enabled, start);
    match &cell.outcome {
        Some(Err(error_text)) => Err(error_text.clone()),
        _ => Ok(()),
    }
}

/// The message for a worker limit that is no positive integer.
pub open spec fn pool_size_error() -> Seq<char> {
    TOKIO_WORKER_THREADS_ENV_VAR@ + " must be a positive integer"@
}

/// The size of the V8 thread pool for a worker limit: zero, which leaves the
/// size to the platform, where no limit is set, and otherwise the limit, which
/// must be a positive integer.
pub open spec fn pool_size(value: Option<Seq<char>>) -> Result<u32, Seq<char>> {
    match value {
        None => Ok(0u32),
        Some(value) => match parsed_u32(value) {
            Some(count) => if count == 0 {
                Err(pool_size_error())
            } else {
                Ok(count)
            },
            None => Err(pool_size_error()),
        },
    }
}

/// The message for a worker limit that is no positive integer.
fn pool_size_error_text() -> (text: String)
    ensures
        text@ == pool_size_error(),
{
    let mut text = TOKIO_WORKER_THREADS_ENV_VAR.to_owned();
    text.append(" must be a positive integer");
    text
}

/// The size of the V8 thread pool for the value of the environment variable
/// that limits worker threads.
pub fn v8_thread_pool_size_from_env(value: Option<&str>) -> (size: Result<u32, String>)
    ensures
        match size {
            Ok(size) => pool_size(opt_str(value)) == Ok::<_, Seq<char>>(size),
            Err(error_text) => pool_size(opt_str(value)) == Err::<u32, _>(
                error_text@,
            ),
        },
{
    let value = match value {
        Some(value) => value,
        None => return Ok(0),
    };
    match parse_u32(value) {
        Some(thread_count) => {
            if thread_count == 0 {
                Err(pool_size_error_text())
            } else {
                Ok(thread_count)
            }
        },
        None => Err(pool_size_error_text()),
    }
}

/// Whether the ICU data was handed over and taken.
pub open spec fn icu_taken<I: FnOnce() -> Result<(), i32>>(set_icu_data: I) -> bool {
    exists|icu: Result<(), i32>| icu is Ok && #[trigger] call_ensures(set_icu_data, (), icu)
}

/// Whether the flag that turns JIT off was set.
pub open spec fn jitless_set<S: FnOnce(&str) -> ()>(set_flags: S) -> bool {
    exists|flag: &str| flag@ == JITLESS_FLAG@ && #[trigger] call_ensures(set_flags, (flag,), ())
}

/// Starts V8 in a JIT mode: hands over the ICU data with `set_icu_data`, turns
/// JIT off with `set_flags` where the mode asks for it, and starts the platform
/// with `start_platform`, which is given the size of its thread pool.
///
/// The order matters, as V8 cannot change its mode once it runs. A flag may
/// only be set once the ICU data was taken, and the platform may only be started
/// once the flag that the mode asks for was set. So nothing else happens where
/// the ICU data is refused, and its error code is what is reported where both it
/// and the worker limit are bad.
pub fn initialize_v8_with_mode<
    I: FnOnce() -> Result<(), i32>,
    S: FnOnce(&str) -> (),
    P: FnOnce(u32) -> (),
>(
    jit_mode: V8JitMode,
    worker_threads: Option<&str>,
    set_icu_data: I,
    set_flags: S,
    start_platform: P,
) -> (outcome: Result<V8Initialization, String>)
    requires
        call_requires(set_icu_data, ()),
        jit_mode == V8JitMode::Disabled && icu_taken(set_icu_data) ==> forall|flag: &str|
            flag@ == JITLESS_FLAG@ ==> #[trigger] call_requires(set_flags, (flag,)),
        forall|size: u32|
            pool_size(opt_str(worker_threads)) == Ok::<_, Seq<char>>(size) && icu_taken(
                set_icu_data,
            ) && (jit_mode == V8JitMode::Disabled ==> jitless_set(set_flags))
                ==> #[trigger] call_requires(start_platform, (size,)),
    ensures
        exists|icu: Result<(), i32>| #[trigger]
            call_ensures(set_icu_data, (), icu) && match icu {
                Err(error_code) => outcome_view(outcome) == Err::<V8JitMode, _>(
                    "failed to initialize ICU data: "@ + decimal_int(error_code as int),
                ),
                Ok(()) => {
                    &&& jit_mode == V8JitMode::Disabled ==> jitless_set(set_flags)
                    &&& match pool_size(opt_str(worker_threads)) {
                        Err(error_text) => outcome_view(outcome) == Err::<V8JitMode, _>(error_text),
                        Ok(size) => outcome_view(outcome) == Ok::<_, Seq<char>>(jit_mode)
                            && call_ensures(start_platform, (size,), ()),
                    }
                },
            },
{
    let icu = set_icu_data();
    if let Err(error_code) = icu {
        let mut error_text = "failed to initialize ICU data: ".to_owned();
        error_text.append(integer_text(error_code).as_str());
        return Err(error_text);
    }
    assert(icu is Ok && call_ensures(set_icu_data, (), icu));
    match jit_mode {
        V8JitMode::Enabled => {},
        V8JitMode::Disabled => {
            set_flags(JITLESS_FLAG);
            assert(call_ensures(set_flags, (JITLESS_FLAG,), ()));
        },
    }
    match v8_thread_pool_size_from_env(worker_threads) {
        Ok(size) => {
            start_platform(size);
            Ok(V8Initialization { jit_mode })
        },
        Err(error_text) => Err(error_text),
    }
}

/// A V8 that runs keeps its mode: once a request for a mode was granted, every
/// request for that mode is, and every request for the other is refused with
/// the name of the mode that V8 runs in.
pub proof fn law_mode_cannot_change(
    outcome: Result<V8JitMode, Seq<char>>,
    granted: V8JitMode,
    requested: V8JitMode,
)
    requires
        mode_answer(outcome, granted) is Ok,
    ensures
        outcome == Ok::<_, Seq<char>>(granted),
        requested == granted ==> mode_answer(outcome, requested) is Ok,
        requested != granted ==> mode_answer(outcome, requested) == Err::<(), _>(
            "V8 was already initialized with JIT "@ + granted.description_text(),
        ),
        running_answer(outcome) is Ok,
{
}

/// A failed start stays failed: every request is answered with the error of
/// the one attempt.
pub proof fn law_failure_is_final(error_text: Seq<char>, requested: V8JitMode)
    ensures
        mode_answer(Err(error_text), requested) == Err::<(), _>(error_text),
        running_answer(Err(error_text)) == Err::<(), _>(error_text),
{
}

/// A worker limit that is written as a positive number of thirty-two bits is the
/// size of the pool, and without a limit the platform chooses. Any other limit is
/// refused, nought and larger numbers included.
pub proof fn law_pool_has_the_size_of_the_limit(n: nat, value: Seq<char>)
    ensures
        pool_size(None) == Ok::<u32, Seq<char>>(0),
        0 < n <= u32::MAX ==> pool_size(Some(decimal_nat(n))) == Ok::<u32, Seq<char>>(n as u32),
        n == 0 || n > u32::MAX ==> pool_size(Some(decimal_nat(n))) == Err::<u32, _>(
            "TOKIO_WORKER_THREADS"@ + " must be a positive integer"@,
        ),
        pool_size(Some(value)) is Err ==> pool_size(Some(value)) == Err::<u32, _>(
            "TOKIO_WORKER_THREADS"@ + " must be a positive integer"@,
        ),
        pool_size(Some(value)) matches Ok(size) ==> size > 0 && value.len() > 0 && (value[0] == '+'
            || '0' <= value[0] <= '9') && forall|i: int|
            1 <= i < value.len() ==> '0' <= #[trigger] value[i] <= '9',
{
    law_numbers_are_read_as_written(n);
    law_only_digits_are_numbers(decimal_nat(n));
    law_only_digits_are_numbers(value);
    assert('0' <= decimal_nat(n)[0] <= '9');
}

/// A request is granted exactly where V8 runs in the mode that was asked for, and
/// V8 runs exactly where its start did not fail. A refusal names the other mode.
pub proof fn law_requests_are_granted_in_the_mode_that_runs(mode: V8JitMode, requested: V8JitMode)
    ensures
        mode_answer(Ok(mode), requested) is Ok <==> mode == requested,
        running_answer(Ok(mode)) is Ok,
        mode_answer(Ok(V8JitMode::Enabled), V8JitMode::Disabled) == Err::<(), _>(
            "V8 was already initialized with JIT "@ + "enabled"@,
        ),
        mode_answer(Ok(V8JitMode::Disabled), V8JitMode::Enabled) == Err::<(), _>(
            "V8 was already initialized with JIT "@ + "disabled"@,
        ),
{
}

/// What is said of an attempt or of an answer tells them apart.
pub proof fn law_outcomes_are_told_apart(mode: V8JitMode, error_text: String)
    ensures
        outcome_view(Ok(V8Initialization { jit_mode: mode })) == Ok::<_, Seq<char>>(mode),
        outcome_view(Err(error_text)) == Err::<V8JitMode, _>(error_text@),
        answer_view(Ok(())) == Ok::<(), Seq<char>>(()),
        answer_view(Err(error_text)) == Err::<(), _>(error_text@),
{
}

/// The ICU data counts as taken where handing it over can have succeeded, and
/// never where that can only have failed. JIT was turned off exactly where the
/// flag for that was set.
pub proof fn law_start_follows_what_was_set_up<
    I: FnOnce() -> Result<(), i32>,
    S: FnOnce(&str) -> (),
>(set_icu_data: I, set_flags: S)
    ensures
        call_ensures(set_icu_data, (), Ok::<(), i32>(())) ==> icu_taken(set_icu_data),
        (forall|icu: Result<(), i32>| #[trigger]
            call_ensures(set_icu_data, (), icu) ==> icu is Err) ==> !icu_taken(set_icu_data),
        jitless_set(set_flags) <==> exists|flag: &str|
            flag@ == "--jitless"@ && #[trigger] call_ensures(set_flags, (flag,), ()),
{
}

} // verus!
