//! Actions of the robot as the queue sees them: an identifier, a type name and a
//! save directory named `ID_TYPENAME`, around an action that may have been taken
//! out for execution (a placeholder). Also the bookkeeping of the command-list
//! action, which runs its commands one per step.

use vstd::prelude::*;
use crate::text::{decimal, decimal_string, parsed_u32, parse_u32, split_once, split_once_owned, first_index, lemma_decimal, lemma_first_index, lemma_first_index_bounds, lemma_parse_decimal, is_digit, find_char};
use crate::serial::str_eq;

verus! {

/// A unique identifier for an action.
pub type ActionId = u32;

/// The path `base` with the relative path `name` adjoined (as `Path::join` builds
/// it).
pub uninterp spec fn joined_path(base: Seq<char>, name: Seq<char>) -> Seq<char>;

/// The final component of the path `p`, if it has one (as `Path::file_name`
/// gives it).
pub uninterp spec fn path_file_name(p: Seq<char>) -> Option<Seq<char>>;

/// Whether `name` is one plain path component on every platform: not empty, no
/// separator or drive colon, and neither `.` nor `..`.
pub open spec fn is_plain_component(name: Seq<char>) -> bool {
    &&& name.len() > 0
    &&& !name.contains('/')
    &&& !name.contains('\\')
    &&& !name.contains(':')
    &&& name != seq!['.']
    &&& name != seq!['.', '.']
}

/// `Path::new(base).join(name)`, as text.
///
/// Trusted: the result is named `joined_path` of the two arguments. As the
/// documentation of `Path::join`, `PathBuf::push` and `Path::file_name` says,
/// adjoining a relative path that is a single plain component makes it the final
/// component of the result. Where the separator is placed is not stated.
#[verifier::external_body]
fn path_join(base: &str, name: &str) -> (r: String)
    ensures
        r@ == joined_path(base@, name@),
        is_plain_component(name@) ==> path_file_name(r@) == Some(name@),
{
    std::path::Path::new(base).join(name).to_string_lossy().into_owned()
}

/// `Path::new(path).file_name()`, as text.
///
/// Trusted: the result is named `path_file_name` of the path; the final
/// component of a path given as text is itself valid text, so nothing is lost.
#[verifier::external_body]
fn file_name(path: &str) -> (r: Option<String>)
    ensures
        match r {
            Some(n) => path_file_name(path@) == Some(n@),
            None => path_file_name(path@) is None,
        },
{
    std::path::Path::new(path).file_name().map(|n| n.to_string_lossy().into_owned())
}

/// The name of the directory in which an action saves itself: its id in decimal,
/// an underscore, its type name.
pub open spec fn dir_name(id: ActionId, type_label: Seq<char>) -> Seq<char> {
    decimal(id as nat) + seq!['_'] + type_label
}

/// The name of the directory of the action with id `id` and type `type_label`.
pub fn dir_name_string(id: ActionId, type_label: &str) -> (r: String)
    ensures
        r@ == dir_name(id, type_label@),
{
    let mut s = decimal_string(id);
    proof {
        reveal_strlit("_");
    }
    s.append("_");
    s.append(type_label);
    assert(s@ =~= dir_name(id, type_label@));
    s
}

/// Why a directory name does not name a saved action.
#[derive(PartialEq, Eq, Structural, Clone, Copy, Debug)]
pub enum LoadError {
    /// The path has no final component to read a name from.
    NoFileName,
    /// There is no `_` between an id and a type name.
    InvalidFilename,
    /// The text before the first `_` is not an id.
    InvalidId,
    /// The type name is not the name of an action type.
    InvalidTypeName,
}

/// The kinds of actions that can be restored from disk.
#[derive(PartialEq, Eq, Structural, Clone, Copy, Debug)]
pub enum ActionKind {
    Emergency,
    CommandList,
}

/// The id and type name that a directory name `ID_TYPENAME` holds: the text
/// before the first `_` (all of it, if there is none) must parse as an id, and
/// then a `_` must follow; the rest is the type name.
pub open spec fn parsed_dir_name(s: Seq<char>) -> Result<(ActionId, Seq<char>), LoadError> {
    match parsed_u32(s.take(first_index(s, '_'))) {
        None => Err(LoadError::InvalidId),
        Some(id) => match split_once(s, '_') {
            None => Err(LoadError::InvalidFilename),
            Some((_, type_label)) => Ok((id, type_label)),
        },
    }
}

pub open spec fn kind_of_type_name(t: Seq<char>) -> Option<ActionKind> {
    if t == "emergency"@ {
        Some(ActionKind::Emergency)
    } else if t == "command_list"@ {
        Some(ActionKind::CommandList)
    } else {
        None
    }
}

/// The id and type name of the action saved in directory `save_dir`: its final
/// component must name a saved action of a known type.
pub open spec fn loaded_from_dir(save_dir: Seq<char>) -> Result<(ActionId, Seq<char>), LoadError> {
    match path_file_name(save_dir) {
        None => Err(LoadError::NoFileName),
        Some(name) => match parsed_dir_name(name) {
            Err(e) => Err(e),
            Ok((id, type_label)) => match kind_of_type_name(type_label) {
                None => Err(LoadError::InvalidTypeName),
                Some(_) => Ok((id, type_label)),
            },
        },
    }
}

/// Which action type a type name stands for.
pub fn kind_of(type_label: &str) -> (r: Option<ActionKind>)
    ensures
        r == kind_of_type_name(type_label@),
{
    if str_eq(type_label, EmergencyAction::get_type_name()) {
        Some(ActionKind::Emergency)
    } else if str_eq(type_label, CommandListAction::<u8>::get_type_name()) {
        Some(ActionKind::CommandList)
    } else {
        None
    }
}

/// Information that identifies an action and tells where it stores its files.
#[derive(Debug)]
pub struct Context {
    id: ActionId,
    type_label: String,
    save_dir: String,
}

impl Context {
    pub closed spec fn spec_id(&self) -> ActionId {
        self.id
    }

    pub closed spec fn spec_type_name(&self) -> Seq<char> {
        self.type_label@
    }

    pub closed spec fn spec_save_dir(&self) -> Seq<char> {
        self.save_dir@
    }

    /// The unique id of the action.
    pub fn get_id(&self) -> (r: ActionId)
        ensures
            r == self.spec_id(),
    {
        self.id
    }

    /// The name of the action's type.
    pub fn get_type_name(&self) -> (r: &String)
        ensures
            r@ == self.spec_type_name(),
    {
        &self.type_label
    }

    /// The directory in which to store files about this action.
    pub fn get_save_dir(&self) -> (r: &String)
        ensures
            r@ == self.spec_save_dir(),
    {
        &self.save_dir
    }

    /// The context of the action saved in directory `save_dir`, whose final
    /// component must be `ID_TYPENAME`.
    pub fn from_save_dir(save_dir: String) -> (r: Result<(Context, ActionKind), LoadError>)
        ensures
            match loaded_from_dir(save_dir@) {
                Err(e) => r == Err::<(Context, ActionKind), LoadError>(e),
                Ok((id, type_label)) => r matches Ok((ctx, k)) && Some(k) == kind_of_type_name(
                    type_label,
                ) && ctx.spec_id() == id && ctx.spec_type_name() == type_label
                    && ctx.spec_save_dir() == save_dir@,
            },
    {
        match file_name(save_dir.as_str()) {
            None => Err(LoadError::NoFileName),
            Some(name) => Context::from_dir_name(name.as_str(), save_dir),
        }
    }

    /// The context of a saved action, from the name of the directory it was
    /// saved in (`ID_TYPENAME`) and the directory's full path. The type name must
    /// be the name of an action type.
    pub fn from_dir_name(dir_name: &str, save_dir: String) -> (r: Result<(Context, ActionKind), LoadError>)
        ensures
            match parsed_dir_name(dir_name@) {
                Err(e) => r == Err::<(Context, ActionKind), LoadError>(e),
                Ok((id, type_label)) => match kind_of_type_name(type_label) {
                    None => r == Err::<(Context, ActionKind), LoadError>(LoadError::InvalidTypeName),
                    Some(kind) => r matches Ok((ctx, k)) && k == kind && ctx.spec_id() == id
                        && ctx.spec_type_name() == type_label && ctx.spec_save_dir() == save_dir@,
                },
            },
    {
        let end = match find_char(dir_name, '_') {
            Some(i) => i,
            None => dir_name.unicode_len(),
        };
        proof {
            lemma_first_index_bounds(dir_name@, '_');
        }
        let id_text = dir_name.substring_char(0, end);
        assert(id_text@ =~= dir_name@.take(first_index(dir_name@, '_')));
        match parse_u32(id_text) {
            None => Err(LoadError::InvalidId),
            Some(id) => match split_once_owned(dir_name, '_') {
                None => Err(LoadError::InvalidFilename),
                Some((_, type_label)) => match kind_of(type_label.as_str()) {
                    None => Err(LoadError::InvalidTypeName),
                    Some(kind) => Ok((Context { id, type_label, save_dir }, kind)),
                },
            },
        }
    }
}

impl Clone for Context {
    fn clone(&self) -> (r: Self)
        ensures
            r == *self,
    {
        Context { id: self.id, type_label: self.type_label.clone(), save_dir: self.save_dir.clone() }
    }
}

/// An action together with its context, its last reported progress and the
/// errors its steps returned. When the action is being executed, the wrapper
/// left in the queue is a placeholder (`action` is `None`); the queue records
/// progress and errors on it.
#[derive(Debug)]
pub struct ActionWrapper<A, P, E> {
    pub action: Option<A>,
    pub progress: Option<P>,
    pub ctx: Context,
    pub errors: Vec<E>,
}

impl<A, P: Copy, E> ActionWrapper<A, P, E> {
    /// Wraps a new action of type `type_label` with id `id`; it will save itself
    /// in the directory `ID_TYPENAME` inside `save_dir`. Its progress is not
    /// known yet.
    pub fn new(action: A, id: ActionId, save_dir: &str, type_label: &str) -> (r: Self)
        ensures
            r.action == Some(action),
            r.progress is None,
            r.ctx.spec_id() == id,
            r.ctx.spec_type_name() == type_label@,
            r.ctx.spec_save_dir() == joined_path(save_dir@, dir_name(id, type_label@)),
            r.errors@.len() == 0,
            is_plain_label(type_label@) ==> path_file_name(r.ctx.spec_save_dir()) == Some(
                dir_name(id, type_label@),
            ),
    {
        let name = dir_name_string(id, type_label);
        proof {
            if is_plain_label(type_label@) {
                lemma_dir_name_plain(id, type_label@);
            }
        }
        let dir = path_join(save_dir, name.as_str());
        ActionWrapper {
            action: Some(action),
            progress: None,
            ctx: Context { id, type_label: String::from_str(type_label), save_dir: dir },
            errors: Vec::new(),
        }
    }

    /// Wraps an action restored from disk.
    pub fn from_context(action: A, ctx: Context) -> (r: Self)
        ensures
            r.action == Some(action),
            r.progress is None,
            r.ctx == ctx,
            r.errors@.len() == 0,
    {
        ActionWrapper { action: Some(action), progress: None, ctx, errors: Vec::new() }
    }

    /// The unique id of the wrapped action.
    pub fn get_id(&self) -> (r: ActionId)
        ensures
            r == self.ctx.spec_id(),
    {
        self.ctx.get_id()
    }

    /// The type name the action was created with.
    pub fn get_type_name(&self) -> (r: &String)
        ensures
            r@ == self.ctx.spec_type_name(),
    {
        self.ctx.get_type_name()
    }

    /// The directory in which the action stores its files.
    pub fn get_save_dir(&self) -> (r: &String)
        ensures
            r@ == self.ctx.spec_save_dir(),
    {
        self.ctx.get_save_dir()
    }

    /// The last progress the action reported, if any.
    pub fn get_progress(&self) -> (r: Option<P>)
        ensures
            r == self.progress,
    {
        self.progress
    }

    /// Whether this wrapper is a placeholder for an action being executed.
    pub fn is_placeholder(&self) -> (r: bool)
        ensures
            r == self.action.is_none(),
    {
        self.action.is_none()
    }

    /// Takes the action out, leaving a placeholder with the same context,
    /// progress and errors, and returns a wrapper with the action, the same
    /// context and progress, and no errors yet.
    pub fn make_placeholder_and_extract(&mut self) -> (r: Self)
        requires
            old(self).action is Some,
        ensures
            r.action == old(self).action,
            r.progress == old(self).progress,
            r.ctx == old(self).ctx,
            r.errors@.len() == 0,
            final(self).action is None,
            final(self).progress == old(self).progress,
            final(self).ctx == old(self).ctx,
            final(self).errors == old(self).errors,
    {
        let action = self.action.take();
        ActionWrapper { action, progress: self.progress, ctx: self.ctx.clone(), errors: Vec::new() }
    }

    /// The action has finished: take it out (so that it can be released) and
    /// forget its progress.
    pub fn finish(&mut self) -> (r: Option<A>)
        ensures
            r == old(self).action,
            final(self).action is None,
            final(self).progress is None,
            final(self).ctx == old(self).ctx,
            final(self).errors == old(self).errors,
    {
        self.progress = None;
        self.action.take()
    }
}

/// The action that puts the robot in a safe, anchored position.
#[derive(Debug)]
pub struct EmergencyAction {}

impl EmergencyAction {
    /// The type name under which emergency actions are saved.
    pub fn get_type_name() -> (r: &'static str)
        ensures
            r@ == "emergency"@,
    {
        "emergency"
    }
}

/// What a command-list action reports after a command ran successfully.
#[derive(PartialEq, Eq, Structural, Clone, Copy, Debug)]
pub enum CommandListStep {
    /// Every command ran.
    Finished,
    /// Some commands are left.
    Running { steps_done_so_far: usize, steps_total: usize },
}

/// An action that runs a list of commands, one per step.
#[derive(Debug)]
pub struct CommandListAction<C> {
    commands: Vec<C>,
    steps_done_so_far: usize,
}

impl<C> CommandListAction<C> {
    pub closed spec fn spec_commands(&self) -> Seq<C> {
        self.commands@
    }

    pub closed spec fn spec_steps_done(&self) -> nat {
        self.steps_done_so_far as nat
    }

    /// The type name under which command-list actions are saved.
    pub fn get_type_name() -> (r: &'static str)
        ensures
            r@ == "command_list"@,
    {
        "command_list"
    }

    /// A list of commands, none of which has run yet.
    pub fn new(commands: Vec<C>) -> (r: Self)
        ensures
            r.spec_commands() == commands@,
            r.spec_steps_done() == 0,
    {
        CommandListAction { commands, steps_done_so_far: 0 }
    }

    /// A list of commands of which the first `steps_done_so_far` have run.
    pub fn from_parts(commands: Vec<C>, steps_done_so_far: usize) -> (r: Self)
        ensures
            r.spec_commands() == commands@,
            r.spec_steps_done() == steps_done_so_far,
    {
        CommandListAction { commands, steps_done_so_far }
    }

    /// The commands.
    pub fn get_commands(&self) -> (r: &Vec<C>)
        ensures
            r@ == self.spec_commands(),
    {
        &self.commands
    }

    /// How many commands have run.
    pub fn get_steps_done_so_far(&self) -> (r: usize)
        ensures
            r == self.spec_steps_done(),
    {
        self.steps_done_so_far
    }

    /// The command to run in the next step, or `None` when every command ran.
    pub fn next_command(&self) -> (r: Option<&C>)
        ensures
            self.spec_steps_done() >= self.spec_commands().len() ==> r is None,
            self.spec_steps_done() < self.spec_commands().len() ==> r == Some(
                &self.spec_commands()[self.spec_steps_done() as int],
            ),
    {
        if self.steps_done_so_far >= self.commands.len() {
            None
        } else {
            Some(&self.commands[self.steps_done_so_far])
        }
    }

    /// The next command ran without error: count it, and report whether the list
    /// is done.
    pub fn command_succeeded(&mut self) -> (r: CommandListStep)
        requires
            old(self).spec_steps_done() < old(self).spec_commands().len(),
        ensures
            final(self).spec_commands() == old(self).spec_commands(),
            final(self).spec_steps_done() == old(self).spec_steps_done() + 1,
            r == (if final(self).spec_steps_done() >= final(self).spec_commands().len() {
                CommandListStep::Finished
            } else {
                CommandListStep::Running {
                    steps_done_so_far: final(self).spec_steps_done() as usize,
                    steps_total: final(self).spec_commands().len() as usize,
                }
            }),
    {
        let total = self.commands.len();
        self.steps_done_so_far = self.steps_done_so_far + 1;
        if self.steps_done_so_far >= total {
            CommandListStep::Finished
        } else {
            CommandListStep::Running {
                steps_done_so_far: self.steps_done_so_far,
                steps_total: self.commands.len(),
            }
        }
    }
}

/// The number of whole milliseconds of a duration, if it fits in a `u64`.
pub fn millis_to_u64(millis: u128) -> (r: Option<u64>)
    ensures
        millis <= u64::MAX ==> r == Some(millis as u64),
        millis > u64::MAX ==> r is None,
{
    if millis <= 0xffff_ffff_ffff_ffffu128 {
        Some(millis as u64)
    } else {
        None
    }
}

/// Whether a type name keeps the directory name `ID_TYPENAME` a single plain
/// path component.
pub open spec fn is_plain_label(type_label: Seq<char>) -> bool {
    !type_label.contains('/') && !type_label.contains('\\') && !type_label.contains(':')
}

pub proof fn lemma_dir_name_plain(id: ActionId, type_label: Seq<char>)
    requires
        is_plain_label(type_label),
    ensures
        is_plain_component(dir_name(id, type_label)),
{
    let d = decimal(id as nat);
    let s = dir_name(id, type_label);
    lemma_decimal(id as nat);
    assert forall|c: char| c == '/' || c == '\\' || c == ':' implies !s.contains(c) by {
        if s.contains(c) {
            let j = choose|j: int| 0 <= j < s.len() && s[j] == c;
            if j < d.len() {
                assert(s[j] == d[j]);
                assert(is_digit(d[j]));
            } else if j > d.len() {
                assert(s[j] == type_label[j - d.len() - 1]);
            }
        }
    }
    assert(s[d.len() as int] == '_');
    assert(s != seq!['.']);
    assert(s != seq!['.', '.']);
}

/// An action saved in the directory that [`ActionWrapper::new`] names for it,
/// with a known type, is read back from that directory with the same id and type
/// name.
pub proof fn lemma_saved_action_reads_back(save_dir: Seq<char>, id: ActionId, type_label: Seq<char>)
    requires
        path_file_name(save_dir) == Some(dir_name(id, type_label)),
        kind_of_type_name(type_label) is Some,
    ensures
        loaded_from_dir(save_dir) == Ok::<(ActionId, Seq<char>), LoadError>((id, type_label)),
{
    lemma_dir_name_roundtrip(id, type_label);
}

/// A directory name written for an action reads back as the same id and type
/// name.
pub proof fn lemma_dir_name_roundtrip(id: ActionId, type_label: Seq<char>)
    ensures
        parsed_dir_name(dir_name(id, type_label)) == Ok::<(ActionId, Seq<char>), LoadError>(
            (id, type_label),
        ),
{
    let d = decimal(id as nat);
    let s = dir_name(id, type_label);
    lemma_decimal(id as nat);
    lemma_parse_decimal(id);
    assert forall|j: int| 0 <= j < d.len() implies s[j] != '_' by {
        assert(s[j] == d[j]);
        assert(is_digit(d[j]));
    }
    assert(s[d.len() as int] == '_');
    lemma_first_index(s, '_', d.len() as int);
    assert(first_index(s, '_') == d.len());
    assert(s.take(d.len() as int) =~= d);
    assert(s.skip(d.len() as int + 1) =~= type_label);
}

} // verus!
