//! Loading kernel modules when they are first needed.
//!
//! The decisions of the on-demand loader stand here as functions from an event
//! to the next action. Whoever drives them performs the action and reports what
//! came of it as the next event.
use vstd::prelude::*;
use vstd::string::*;
use vstd::utf8::*;

use crate::error::{VfsError, VfsResult};
use crate::text::texts;

verus! {

/// How often a lookup is put to the module registry before it is given up.
pub const ACCESS_ATTEMPTS: u32 = 5;

/// The hash of a byte string: start at 5381, and for each byte multiply by 33
/// and add it, in 64 bits.
pub open spec fn hash_of(bytes: Seq<u8>) -> nat
    decreases bytes.len(),
{
    if bytes.len() == 0 {
        5381
    } else {
        (33 * hash_of(bytes.drop_last()) + bytes.last() as nat) % 0x1_0000_0000_0000_0000
    }
}

/// The hash of nothing is 5381. A further byte multiplies the hash by 33 and is
/// added to it, in 64 bits, however long the text is. A module's handle is the
/// hash of its name's encoding.
pub proof fn law_hash_goes_on(bytes: Seq<u8>, byte: u8, name: Seq<char>)
    ensures
        hash_of(Seq::empty()) == 5381,
        hash_of(bytes.push(byte)) == (33 * hash_of(bytes) + byte) % 0x1_0000_0000_0000_0000,
        handle_of(name) == hash_of(encode_utf8(name)),
{
    assert(bytes.push(byte).drop_last() =~= bytes);
}

/// Simple string hash for generating opaque handles.
pub fn simple_hash(s: &str) -> (h: u64)
    ensures
        h == hash_of(s.spec_bytes()),
{
    let bytes: &[u8] = s.as_bytes();
    let mut h: u64 = 5381;
    let mut i: usize = 0;
    assert(bytes@.take(0) =~= Seq::<u8>::empty());
    while i < bytes.len()
        invariant
            i <= bytes@.len(),
            bytes@ == s.spec_bytes(),
            h == hash_of(bytes@.take(i as int)),
        decreases bytes@.len() - i,
    {
        let ghost before = bytes@.take(i as int);
        let ghost now = bytes@.take(i + 1);
        assert(now.drop_last() =~= before);
        assert(now.last() == bytes@[i as int]);
        h = h.wrapping_mul(33).wrapping_add(bytes[i] as u64);
        i = i + 1;
    }
    assert(bytes@.take(i as int) =~= bytes@);
    h
}

/// Get current time as abstract ticks (nanoseconds / 1_000_000 = milliseconds).
pub fn current_tick(nanos: u64) -> (tick: u64)
    ensures
        tick == nanos / 1_000_000,
        tick * 1_000_000 <= nanos < (tick + 1) * 1_000_000,
{
    nanos / 1_000_000
}

/// Called periodically from the timer callback to unload idle modules.
///
/// Gives the tick that the registry is told, or nothing while there is none.
pub fn tick_ondemand(initialized: bool, nanos: u64) -> (tick: Option<u64>)
    ensures
        tick == (if initialized {
            Some((nanos / 1_000_000) as u64)
        } else {
            None
        }),
        tick matches Some(t) ==> t * 1_000_000 <= nanos < (t + 1) * 1_000_000,
{
    if initialized {
        Some(current_tick(nanos))
    } else {
        None
    }
}

/// Why a module could not be loaded.
#[derive(Debug, Clone, Copy, PartialEq, Eq, Structural)]
pub enum LoadError {
    /// The module file, or something it needs, is not there.
    NotFound,
    /// The file is no module.
    InvalidModule,
    /// Anything else.
    Other,
}

/// Why a module could not be unloaded.
#[derive(Debug, Clone, Copy, PartialEq, Eq, Structural)]
pub enum UnloadError {
    /// No such module is loaded.
    NotLoaded,
    /// Anything else.
    Other,
}

/// What happened while a module is being loaded.
pub enum LoadEvent {
    /// The load was asked for.
    Start,
    /// The module file was read.
    FileRead(VfsResult<Vec<u8>>),
    /// The module was initialised.
    ModuleInit(VfsResult<()>),
}

/// What to do next to load a module.
pub enum LoadAction {
    /// Read the file with this path.
    ReadFile(String),
    /// Initialise a module from this image.
    InitModule(Vec<u8>),
    /// Answer the load.
    Return(Result<u64, LoadError>),
}

/// What happened while a module is being unloaded.
pub enum UnloadEvent {
    /// The module with this handle is to go; these modules are loaded.
    Start(u64, Vec<String>),
    /// The module was deleted.
    Deleted(VfsResult<()>),
}

/// What to do next to unload a module.
pub enum UnloadAction {
    /// Delete the module.
    Delete(String),
    /// Answer the unload.
    Return(Result<(), UnloadError>),
}

/// The error of a load whose module could not be initialised.
pub open spec fn load_error_of(e: VfsError) -> LoadError {
    match e {
        VfsError::NotFound => LoadError::NotFound,
        VfsError::InvalidInput => LoadError::InvalidModule,
        _ => LoadError::Other,
    }
}

/// A load that found something missing says so, one that was given no module
/// says that, and every other failure is one of no special kind.
pub proof fn law_load_error(e: VfsError)
    ensures
        load_error_of(e) == LoadError::NotFound <==> e == VfsError::NotFound,
        load_error_of(e) == LoadError::InvalidModule <==> e == VfsError::InvalidInput,
        load_error_of(e) == LoadError::Other <==> e != VfsError::NotFound && e
            != VfsError::InvalidInput,
{
}

/// The handle of the module with this name.
pub open spec fn handle_of(name: Seq<char>) -> nat {
    hash_of(encode_utf8(name))
}

/// What a [`LoadAction`] holds.
#[verifier::ext_equal]
pub enum LoadActionView {
    /// Read the file with this path.
    ReadFile(Seq<char>),
    /// Initialise a module from this image.
    InitModule(Seq<u8>),
    /// Answer the load.
    Return(Result<u64, LoadError>),
}

impl View for LoadAction {
    type V = LoadActionView;

    open spec fn view(&self) -> LoadActionView {
        match self {
            LoadAction::ReadFile(path) => LoadActionView::ReadFile(path@),
            LoadAction::InitModule(image) => LoadActionView::InitModule(image@),
            LoadAction::Return(result) => LoadActionView::Return(*result),
        }
    }
}

/// What a [`LoadAction`] is seen to hold is what it holds.
pub proof fn law_load_action_view(path: String, image: Vec<u8>, result: Result<u64, LoadError>)
    ensures
        LoadAction::ReadFile(path)@ == LoadActionView::ReadFile(path@),
        LoadAction::InitModule(image)@ == LoadActionView::InitModule(image@),
        LoadAction::Return(result)@ == LoadActionView::Return(result),
{
}

/// What to do next to load the module `name` from `ko_path`.
pub open spec fn load_next(
    name: Seq<char>,
    ko_path: Seq<char>,
    event: LoadEvent,
) -> LoadActionView {
    match event {
        LoadEvent::Start => LoadActionView::ReadFile(ko_path),
        LoadEvent::FileRead(Ok(data)) => LoadActionView::InitModule(data@),
        LoadEvent::FileRead(Err(_)) => LoadActionView::Return(Err(LoadError::NotFound)),
        LoadEvent::ModuleInit(Ok(_)) => LoadActionView::Return(Ok(handle_of(name) as u64)),
        LoadEvent::ModuleInit(Err(e)) => LoadActionView::Return(Err(load_error_of(e))),
    }
}

/// Loading runs to its end: the module is initialised from the file, and its
/// handle is answered if that succeeds. A file that cannot be read is one that
/// is not there.
pub proof fn law_load_runs_to_its_end(
    name: Seq<char>,
    ko_path: Seq<char>,
    read: VfsResult<Vec<u8>>,
    init: VfsResult<()>,
)
    ensures
        load_next(name, ko_path, LoadEvent::Start) == LoadActionView::ReadFile(ko_path),
        read matches Ok(image) ==> load_next(name, ko_path, LoadEvent::FileRead(read))
            == LoadActionView::InitModule(image@),
        ({
            let end = match load_next(name, ko_path, LoadEvent::FileRead(read)) {
                LoadActionView::InitModule(_) => load_next(
                    name,
                    ko_path,
                    LoadEvent::ModuleInit(init),
                ),
                end => end,
            };
            end == LoadActionView::Return(
                match (read, init) {
                    (Err(_), _) => Err(LoadError::NotFound),
                    (Ok(_), Err(e)) => Err(load_error_of(e)),
                    (Ok(_), Ok(_)) => Ok(handle_of(name) as u64),
                },
            )
        }),
{
}

/// The place of the first of `names` that has this handle.
pub open spec fn place_of_handle(names: Seq<Seq<char>>, handle: u64) -> Option<int>
    decreases names.len(),
{
    if names.len() == 0 {
        None
    } else {
        match place_of_handle(names.drop_last(), handle) {
            Some(i) => Some(i),
            None => if handle_of(names.last()) == handle {
                Some(names.len() - 1)
            } else {
                None
            },
        }
    }
}

/// The first name with a handle has that handle, and no name before it does;
/// where there is no first one, no name has the handle.
pub proof fn law_place_of_handle_is_first(names: Seq<Seq<char>>, handle: u64)
    ensures
        match place_of_handle(names, handle) {
            Some(i) => {
                &&& 0 <= i < names.len()
                &&& handle_of(names[i]) == handle
                &&& forall|k: int| 0 <= k < i ==> handle_of(#[trigger] names[k]) != handle
            },
            None => forall|k: int|
                0 <= k < names.len() ==> handle_of(#[trigger] names[k]) != handle,
        },
    decreases names.len(),
{
    if names.len() > 0 {
        let front = names.drop_last();
        law_place_of_handle_is_first(front, handle);
        match place_of_handle(front, handle) {
            Some(i) => {
                assert(names[i] == front[i]);
                assert forall|k: int| 0 <= k < i implies handle_of(#[trigger] names[k])
                    != handle by {
                    assert(front[k] == names[k]);
                }
            },
            None => {
                assert forall|k: int| 0 <= k < names.len() - 1 implies handle_of(
                    #[trigger] names[k],
                ) != handle by {
                    assert(front[k] == names[k]);
                }
            },
        }
    }
}

/// The handle that a load of `names[i]` answers leads an unload back to
/// `names[i]`, unless a name listed before it has the same hash.
pub proof fn law_unload_finds_loaded(names: Seq<Seq<char>>, i: int)
    requires
        0 <= i < names.len(),
        forall|k: int| 0 <= k < i ==> handle_of(#[trigger] names[k]) != handle_of(names[i]),
    ensures
        place_of_handle(names, handle_of(names[i]) as u64) == Some(i),
{
    lemma_hash_fits(encode_utf8(names[i]));
    law_place_of_handle_is_first(names, handle_of(names[i]) as u64);
    match place_of_handle(names, handle_of(names[i]) as u64) {
        Some(p) => {
            assert(handle_of(names[p]) == handle_of(names[i]));
        },
        None => {
            assert(handle_of(names[i]) != handle_of(names[i]) as u64);
        },
    }
}

/// A hash fits in 64 bits.
pub proof fn lemma_hash_fits(bytes: Seq<u8>)
    ensures
        hash_of(bytes) < 0x1_0000_0000_0000_0000,
    decreases bytes.len(),
{
}

/// Finds the first of `names` that has this handle.
pub fn find_handle(names: &Vec<String>, handle: u64) -> (place: Option<usize>)
    ensures
        place_of_handle(texts(names@), handle) == (match place {
            Some(i) => Some(i as int),
            None => None,
        }),
        place matches Some(i) ==> i < names@.len(),
{
    let mut i: usize = 0;
    assert(texts(names@).take(0) =~= Seq::<Seq<char>>::empty());
    while i < names.len()
        invariant
            i <= names@.len(),
            place_of_handle(texts(names@).take(i as int), handle) is None,
        decreases names@.len() - i,
    {
        let ghost now = texts(names@).take(i + 1);
        assert(now.drop_last() =~= texts(names@).take(i as int));
        assert(now.last() == names@[i as int]@);
        if simple_hash(names[i].as_str()) == handle {
            proof {
                lemma_place_in_prefix(texts(names@), handle, i + 1);
            }
            return Some(i);
        }
        i = i + 1;
    }
    assert(texts(names@).take(i as int) =~= texts(names@));
    None
}

/// A name found in the front of a list is the one found in the whole list.
proof fn lemma_place_in_prefix(names: Seq<Seq<char>>, handle: u64, n: int)
    requires
        0 <= n <= names.len(),
        place_of_handle(names.take(n), handle) is Some,
    ensures
        place_of_handle(names, handle) == place_of_handle(names.take(n), handle),
    decreases names.len() - n,
{
    if n < names.len() {
        assert(names.take(n + 1).drop_last() =~= names.take(n));
        lemma_place_in_prefix(names, handle, n + 1);
    } else {
        assert(names.take(n) =~= names);
    }
}

/// What an [`UnloadAction`] holds.
#[verifier::ext_equal]
pub enum UnloadActionView {
    /// Delete the module.
    Delete(Seq<char>),
    /// Answer the unload.
    Return(Result<(), UnloadError>),
}

impl View for UnloadAction {
    type V = UnloadActionView;

    open spec fn view(&self) -> UnloadActionView {
        match self {
            UnloadAction::Delete(name) => UnloadActionView::Delete(name@),
            UnloadAction::Return(result) => UnloadActionView::Return(*result),
        }
    }
}

/// What an [`UnloadAction`] is seen to hold is what it holds.
pub proof fn law_unload_action_view(name: String, result: Result<(), UnloadError>)
    ensures
        UnloadAction::Delete(name)@ == UnloadActionView::Delete(name@),
        UnloadAction::Return(result)@ == UnloadActionView::Return(result),
{
}

/// What to do next to unload a module. All modules are treated alike.
pub open spec fn unload_next(event: UnloadEvent) -> UnloadActionView {
    match event {
        UnloadEvent::Start(handle, names) => match place_of_handle(texts(names@), handle) {
            Some(i) => UnloadActionView::Delete(names@[i]@),
            None => UnloadActionView::Return(Err(UnloadError::NotLoaded)),
        },
        UnloadEvent::Deleted(Ok(_)) => UnloadActionView::Return(Ok(())),
        UnloadEvent::Deleted(Err(_)) => UnloadActionView::Return(Err(UnloadError::Other)),
    }
}

/// Unloading runs to its end, whatever the module is called. A handle that no
/// loaded module has is refused; otherwise the first module with the handle is
/// deleted, it alone, and once.
pub proof fn law_unload_runs_to_its_end(
    handle: u64,
    names: Vec<String>,
    deleted: VfsResult<()>,
)
    ensures
        ({
            let first = unload_next(UnloadEvent::Start(handle, names));
            let end = match first {
                UnloadActionView::Delete(_) => unload_next(UnloadEvent::Deleted(deleted)),
                end => end,
            };
            match place_of_handle(texts(names@), handle) {
                Some(i) => {
                    &&& first == UnloadActionView::Delete(names@[i]@)
                    &&& end == UnloadActionView::Return(
                        if deleted is Ok {
                            Ok(())
                        } else {
                            Err(UnloadError::Other)
                        },
                    )
                },
                None => end == UnloadActionView::Return(Err(UnloadError::NotLoaded)),
            }
        }),
{
}

/// The loader of kernel modules.
#[derive(Debug, Clone, Copy, PartialEq, Eq, Structural)]
pub struct KmodOnDemandLoader;

impl KmodOnDemandLoader {
    /// Loads the module `name` from the file `ko_path`: read the file, then
    /// initialise the module, then answer the handle.
    pub fn load(&self, name: &str, ko_path: &str, event: LoadEvent) -> (action: LoadAction)
        ensures
            action@ == load_next(name@, ko_path@, event),
    {
        match event {
            LoadEvent::Start => LoadAction::ReadFile(ko_path.to_owned()),
            LoadEvent::FileRead(read) => match read {
                Ok(data) => LoadAction::InitModule(data),
                Err(_) => LoadAction::Return(Err(LoadError::NotFound)),
            },
            LoadEvent::ModuleInit(init) => match init {
                Ok(_) => {
                    // The name's hash serves as an opaque handle.
                    LoadAction::Return(Ok(simple_hash(name)))
                },
                Err(e) => LoadAction::Return(
                    Err(
                        match e {
                            VfsError::NotFound => LoadError::NotFound,
                            VfsError::InvalidInput => LoadError::InvalidModule,
                            _ => LoadError::Other,
                        },
                    ),
                ),
            },
        }
    }

    /// Unloads the module with a handle.
    pub fn unload(&self, event: UnloadEvent) -> (action: UnloadAction)
        ensures
            action@ == unload_next(event),
    {
        match event {
            UnloadEvent::Start(handle, names) => match find_handle(&names, handle) {
                Some(i) => UnloadAction::Delete(names[i].clone()),
                None => UnloadAction::Return(Err(UnloadError::NotLoaded)),
            },
            UnloadEvent::Deleted(result) => match result {
                Ok(_) => UnloadAction::Return(Ok(())),
                Err(_) => UnloadAction::Return(Err(UnloadError::Other)),
            },
        }
    }
}

/// An access that may need a module.
#[derive(Debug, Clone, Copy, PartialEq, Eq)]
pub enum AccessEvent<'a> {
    /// A path was looked up.
    Path(&'a str),
    /// A system call was made.
    Syscall(usize),
}

/// What the registry answers to an access.
#[derive(Debug, Clone, Copy, PartialEq, Eq, Structural)]
pub enum AccessResult {
    /// The module is loaded.
    Loaded,
    /// No module answers to the access.
    NoMatch,
    /// The module could not be loaded.
    LoadFailed,
    /// Somebody else is loading the module.
    Loading,
    /// The module is being unloaded.
    Unavailable,
}

/// An access that is being put to the registry.
#[derive(Debug, Clone, Copy, PartialEq, Eq)]
pub struct LoadAttempt<'a> {
    /// The access.
    pub event: AccessEvent<'a>,
    /// The time at which it happened.
    pub now: u64,
    /// How often the registry was asked without a final answer.
    pub tries: u32,
}

/// Where an attempt to load a module stands.
#[derive(Debug, Clone, Copy, PartialEq, Eq)]
pub enum AttemptStep<'a> {
    /// Let others run, then ask the registry again.
    YieldAndAsk(LoadAttempt<'a>),
    /// Let others run, then give up.
    YieldAndGiveUp,
    /// Whether there is a module now.
    Return(bool),
}

/// The registry's answer is final: whether there is a module, or nothing while
/// somebody else is at work on it.
pub open spec fn final_answer(answer: AccessResult) -> Option<bool> {
    match answer {
        AccessResult::Loaded => Some(true),
        AccessResult::NoMatch => Some(false),
        AccessResult::LoadFailed => Some(false),
        AccessResult::Loading => None,
        AccessResult::Unavailable => None,
    }
}

/// What an answer of the registry leads to.
pub enum AttemptTurn {
    /// The attempt is over: whether there is a module.
    Return(bool),
    /// The registry is asked again.
    Ask,
    /// The registry has been asked often enough.
    GiveUp,
}

/// What an answer of the registry leads to, after `tries` answers that were not
/// final.
pub open spec fn attempt_turn(answer: AccessResult, tries: int) -> AttemptTurn {
    match final_answer(answer) {
        Some(found) => AttemptTurn::Return(found),
        None => if tries + 1 < ACCESS_ATTEMPTS {
            AttemptTurn::Ask
        } else {
            AttemptTurn::GiveUp
        },
    }
}

/// What an attempt comes to if the registry answers one question after the
/// other as `answers` say, after `tries` answers that were not final: whether
/// there is a module, or nothing while more answers are needed.
pub open spec fn attempt_outcome(answers: Seq<AccessResult>, tries: int) -> Option<bool>
    decreases answers.len(),
{
    if answers.len() == 0 {
        None
    } else {
        match attempt_turn(answers[0], tries) {
            AttemptTurn::Return(found) => Some(found),
            AttemptTurn::Ask => attempt_outcome(answers.drop_first(), tries + 1),
            AttemptTurn::GiveUp => Some(false),
        }
    }
}

/// What one answer leads to: a module that is loaded ends the attempt well; none
/// that matches, or one that failed to load, ends it badly; one that somebody is
/// at work on is asked for again, up to the fifth time.
pub proof fn law_attempt_turn(tries: int)
    ensures
        attempt_turn(AccessResult::Loaded, tries) == AttemptTurn::Return(true),
        attempt_turn(AccessResult::NoMatch, tries) == AttemptTurn::Return(false),
        attempt_turn(AccessResult::LoadFailed, tries) == AttemptTurn::Return(false),
        tries < 4 ==> attempt_turn(AccessResult::Loading, tries) == AttemptTurn::Ask,
        tries >= 4 ==> attempt_turn(AccessResult::Loading, tries) == AttemptTurn::GiveUp,
        attempt_turn(AccessResult::Unavailable, tries) == attempt_turn(
            AccessResult::Loading,
            tries,
        ),
{
}

/// An attempt succeeds exactly if the first final answer among the first
/// [`ACCESS_ATTEMPTS`] is that the module is loaded; `waits` answers before
/// it were not final.
pub proof fn law_attempt_is_bounded(answers: Seq<AccessResult>, tries: int, waits: nat)
    requires
        0 <= tries < ACCESS_ATTEMPTS,
        waits <= answers.len(),
        forall|i: int| 0 <= i < waits ==> final_answer(#[trigger] answers[i]) is None,
        waits < answers.len() ==> final_answer(answers[waits as int]) is Some,
    ensures
        tries + waits >= ACCESS_ATTEMPTS ==> attempt_outcome(answers, tries) == Some(false),
        tries + waits < ACCESS_ATTEMPTS && waits < answers.len() ==> attempt_outcome(answers, tries)
            == final_answer(answers[waits as int]),
        tries + waits < ACCESS_ATTEMPTS && waits == answers.len() ==> attempt_outcome(
            answers,
            tries,
        ) is None,
    decreases waits,
{
    if waits > 0 {
        let rest = answers.drop_first();
        assert(final_answer(answers[0]) is None);
        assert forall|i: int| 0 <= i < waits - 1 implies final_answer(
            #[trigger] rest[i],
        ) is None by {
            assert(rest[i] == answers[i + 1]);
        }
        if waits < answers.len() {
            assert(rest[waits - 1] == answers[waits as int]);
        }
        if tries + 1 < ACCESS_ATTEMPTS {
            law_attempt_is_bounded(rest, tries + 1, (waits - 1) as nat);
        }
    }
}

/// Try to load a module triggered by a path access.
///
/// Gives the attempt with which to ask the registry, or nothing if there is no
/// registry: no module is loaded then.
pub fn try_ondemand_load_path<'a>(
    initialized: bool,
    path: &'a str,
    nanos: u64,
) -> (attempt: Option<LoadAttempt<'a>>)
    ensures
        attempt == (if initialized {
            Some(
                LoadAttempt {
                    event: AccessEvent::Path(path),
                    now: (nanos / 1_000_000) as u64,
                    tries: 0,
                },
            )
        } else {
            None
        }),
        attempt matches Some(a) ==> a.now * 1_000_000 <= nanos < (a.now + 1) * 1_000_000,
{
    if initialized {
        Some(LoadAttempt { event: AccessEvent::Path(path), now: current_tick(nanos), tries: 0 })
    } else {
        None
    }
}

/// Try to load a module triggered by a syscall number.
///
/// Gives the attempt with which to ask the registry, or nothing if there is no
/// registry: no module is loaded then.
pub fn try_ondemand_load_syscall(initialized: bool, sysno: usize, nanos: u64) -> (attempt: Option<
    LoadAttempt<'static>,
>)
    ensures
        attempt == (if initialized {
            Some(
                LoadAttempt {
                    event: AccessEvent::Syscall(sysno),
                    now: (nanos / 1_000_000) as u64,
                    tries: 0,
                },
            )
        } else {
            None
        }),
        attempt matches Some(a) ==> a.now * 1_000_000 <= nanos < (a.now + 1) * 1_000_000,
{
    if initialized {
        Some(
            LoadAttempt { event: AccessEvent::Syscall(sysno), now: current_tick(nanos), tries: 0 },
        )
    } else {
        None
    }
}

impl<'a> LoadAttempt<'a> {
    /// Takes the registry's answer.
    pub fn answered(self, answer: AccessResult) -> (step: AttemptStep<'a>)
        ensures
            step == (match attempt_turn(answer, self.tries as int) {
                AttemptTurn::Return(found) => AttemptStep::Return(found),
                AttemptTurn::Ask => AttemptStep::YieldAndAsk(
                    LoadAttempt { tries: (self.tries + 1) as u32, ..self },
                ),
                AttemptTurn::GiveUp => AttemptStep::YieldAndGiveUp,
            }),
            step matches AttemptStep::YieldAndAsk(next) ==> next.event == self.event && next.now
                == self.now && next.tries == self.tries + 1,
    {
        match answer {
            AccessResult::Loaded => AttemptStep::Return(true),
            AccessResult::NoMatch => AttemptStep::Return(false),
            AccessResult::LoadFailed => AttemptStep::Return(false),
            AccessResult::Loading | AccessResult::Unavailable => {
                if self.tries < ACCESS_ATTEMPTS - 1 {
                    AttemptStep::YieldAndAsk(
                        LoadAttempt { event: self.event, now: self.now, tries: self.tries + 1 },
                    )
                } else {
                    AttemptStep::YieldAndGiveUp
                }
            },
        }
    }
}

/// What happened to an operation that may need a module.
#[derive(Debug, PartialEq, Eq)]
pub enum OndemandEvent<R> {
    /// The operation was asked for.
    Start,
    /// The operation was tried.
    Ran(VfsResult<R>),
    /// A module was looked for: whether there is one.
    LoadTried(bool),
    /// The operation was tried again.
    RanAgain(VfsResult<R>),
}

/// What to do next for an operation that may need a module.
#[derive(Debug, PartialEq, Eq)]
pub enum OndemandAction<R> {
    /// Try the operation.
    Run,
    /// Look for a module for the path.
    TryLoad,
    /// Try the operation again.
    RunAgain,
    /// The operation is over.
    Return(VfsResult<R>),
}

/// What to do next for an operation that may need a module.
pub open spec fn ondemand_next<R>(event: OndemandEvent<R>) -> OndemandAction<R> {
    match event {
        OndemandEvent::Start => OndemandAction::Run,
        OndemandEvent::Ran(Err(VfsError::NotFound)) => OndemandAction::TryLoad,
        OndemandEvent::Ran(result) => OndemandAction::Return(result),
        OndemandEvent::LoadTried(true) => OndemandAction::RunAgain,
        OndemandEvent::LoadTried(false) => OndemandAction::Return(Err(VfsError::NotFound)),
        OndemandEvent::RanAgain(result) => OndemandAction::Return(result),
    }
}

/// Execute a path-based VFS operation with on-demand module loading fallback.
///
/// If the operation fails with `NotFound`, check whether any registered module
/// should provide this path. If so, load the module and retry the operation
/// once.
pub fn with_ondemand<R>(event: OndemandEvent<R>) -> (action: OndemandAction<R>)
    ensures
        action == ondemand_next(event),
{
    match event {
        OndemandEvent::Start => OndemandAction::Run,
        OndemandEvent::Ran(result) => match result {
            Err(VfsError::NotFound) => OndemandAction::TryLoad,
            other => OndemandAction::Return(other),
        },
        OndemandEvent::LoadTried(loaded) => if loaded {
            OndemandAction::RunAgain
        } else {
            OndemandAction::Return(Err(VfsError::NotFound))
        },
        OndemandEvent::RanAgain(result) => OndemandAction::Return(result),
    }
}

/// An operation is tried a second time only if it did not find its path and a
/// module was loaded, and never a third time; its caller gets the result of
/// the last try.
pub proof fn law_retried_once_on_not_found<R>(
    first: VfsResult<R>,
    loaded: bool,
    second: VfsResult<R>,
)
    ensures
        ondemand_next(OndemandEvent::<R>::Start) == OndemandAction::<R>::Run,
        ({
            let end = match ondemand_next(OndemandEvent::Ran(first)) {
                OndemandAction::TryLoad => match ondemand_next(
                    OndemandEvent::<R>::LoadTried(loaded),
                ) {
                    OndemandAction::RunAgain => ondemand_next(OndemandEvent::RanAgain(second)),
                    end => end,
                },
                end => end,
            };
            end == OndemandAction::Return(
                if first == Err::<R, VfsError>(VfsError::NotFound) && loaded {
                    second
                } else {
                    first
                },
            )
        }),
        ondemand_next(OndemandEvent::Ran(first)) is TryLoad <==> first == Err::<R, VfsError>(
            VfsError::NotFound,
        ),
{
}

/// A module that is loaded when it is needed.
#[derive(Debug, PartialEq, Eq)]
pub struct ModuleDesc {
    /// The name.
    pub name: String,
    /// The file that holds it.
    pub ko_path: String,
    /// For how many ticks it stays after the last use.
    pub idle_timeout_ticks: u64,
    /// The path whose use needs the module.
    pub trigger_prefix: String,
    /// Whether somebody has to be asked if the module is still in use.
    pub checks_usage: bool,
}

/// Initialize the on-demand module registry.
///
/// A registry that is there already is kept.
pub fn init_ondemand<R>(registry: &mut Option<R>, fresh: R)
    ensures
        *final(registry) == (if *old(registry) is Some {
            *old(registry)
        } else {
            Some(fresh)
        }),
        *old(registry) is Some ==> *final(registry) == *old(registry),
        *old(registry) is None ==> *final(registry) == Some(fresh),
{
    if registry.is_none() {
        *registry = Some(fresh);
    }
}

/// What to do to register a module.
#[derive(Debug, PartialEq, Eq)]
pub enum RegisterAction {
    /// Hand this to the registry, and return what it answers.
    Register(ModuleDesc),
    /// There is no registry: return this.
    Return(bool),
}

/// Register one module descriptor into the global on-demand registry.
///
/// Returns `false` if the registry has not been initialized.
pub fn register_module(initialized: bool, desc: ModuleDesc) -> (action: RegisterAction)
    ensures
        action == (if initialized {
            RegisterAction::Register(desc)
        } else {
            RegisterAction::Return(false)
        }),
{
    if initialized {
        RegisterAction::Register(desc)
    } else {
        RegisterAction::Return(false)
    }
}

} // verus!
