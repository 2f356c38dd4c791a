//! The rules by which a service's handler methods are sorted: what each
//! method's `#[grove(...)]` words make of it, and which of its parameters
//! the generated code passes through.

use crate::naming::pascal_case;
use crate::naming::to_pascal_case;
use vstd::prelude::*;

verus! {

/// The `#[grove(...)]` words found on a method.
#[derive(Clone, Copy, Debug)]
pub struct MethodAttrs {
    /// `command`: an async command handler.
    pub is_command: bool,
    /// `poll`: the command queues work for `poll()`.
    pub is_poll: bool,
    /// `direct`: a read-only method exposed on the handle.
    pub is_direct: bool,
    /// `direct_mut`: a mutable method exposed on the handle.
    pub is_direct_mut: bool,
    /// `task`: a background task.
    pub is_task: bool,
    /// `from = field`: an event handler subscribing to `field`'s events.
    pub has_from: bool,
}

/// What a method is to the generated service.
#[derive(Clone, Copy, Debug, PartialEq, Eq, Structural)]
pub enum MethodRole {
    /// A command; `queues_for_poll` when its work runs on `poll()`.
    Command { queues_for_poll: bool },
    /// A read-only method called directly through the handle.
    Direct,
    /// A mutable method called directly through the handle.
    DirectMut,
    /// A handler of another service's events.
    EventHandler,
    /// A background task.
    Task,
    /// A method left as it is.
    Plain,
}

/// The role that `attrs` give a method: `command` comes first, then
/// `direct`, `direct_mut`, `from` and `task`; `poll` counts only beside
/// `command`.
pub open spec fn role_of(attrs: MethodAttrs) -> MethodRole {
    if attrs.is_command {
        MethodRole::Command { queues_for_poll: attrs.is_poll }
    } else if attrs.is_direct {
        MethodRole::Direct
    } else if attrs.is_direct_mut {
        MethodRole::DirectMut
    } else if attrs.has_from {
        MethodRole::EventHandler
    } else if attrs.is_task {
        MethodRole::Task
    } else {
        MethodRole::Plain
    }
}

/// The role that `attrs` give a method.
pub fn classify_method(attrs: &MethodAttrs) -> (role: MethodRole)
    ensures
        role == role_of(*attrs),
{
    if attrs.is_command {
        MethodRole::Command { queues_for_poll: attrs.is_poll }
    } else if attrs.is_direct {
        MethodRole::Direct
    } else if attrs.is_direct_mut {
        MethodRole::DirectMut
    } else if attrs.has_from {
        MethodRole::EventHandler
    } else if attrs.is_task {
        MethodRole::Task
    } else {
        MethodRole::Plain
    }
}

/// The parameters a task is always given: its service's handle and a
/// cancellation token.
pub const TASK_FIXED_PARAMS: usize = 2;

/// How many leading parameters (after `self`) of a method in `role` the
/// generated code supplies itself rather than taking from the caller: the
/// poll arguments of a polled command, the handle and token of a task.
pub open spec fn skipped_params(role: MethodRole, poll_arg_count: usize) -> usize {
    match role {
        MethodRole::Command { queues_for_poll } => if queues_for_poll {
            poll_arg_count
        } else {
            0
        },
        MethodRole::Task => TASK_FIXED_PARAMS,
        _ => 0,
    }
}

/// How many leading parameters of a method in `role` the generated code
/// supplies itself.
pub fn leading_params_skipped(role: MethodRole, poll_arg_count: usize) -> (skipped: usize)
    ensures
        skipped == skipped_params(role, poll_arg_count),
{
    match role {
        MethodRole::Command { queues_for_poll } => if queues_for_poll {
            poll_arg_count
        } else {
            0
        },
        MethodRole::Task => TASK_FIXED_PARAMS,
        _ => 0,
    }
}

/// `command` wins over every other word, and a method with none of the role
/// words (`poll` alone included) is left plain.
pub proof fn law_command_overrides(attrs: MethodAttrs)
    ensures
        attrs.is_command ==> role_of(attrs) == (MethodRole::Command { queues_for_poll: attrs.is_poll }),
        !attrs.is_command && !attrs.is_direct && !attrs.is_direct_mut && !attrs.has_from
            && !attrs.is_task ==> role_of(attrs) == MethodRole::Plain,
{
}

/// How a service's main loop waits: on commands and events together, on
/// one of them, or only on cancellation (waking once a second).
#[derive(Clone, Copy, Debug, PartialEq, Eq, Structural)]
pub enum LoopShape {
    /// Commands and subscribed events.
    CommandsAndEvents,
    /// Commands only.
    CommandsOnly,
    /// Subscribed events only.
    EventsOnly,
    /// Neither: the loop only waits for cancellation.
    Idle,
}

/// The loop shape of a service with or without commands and event handlers.
pub open spec fn loop_shape_of(has_commands: bool, has_events: bool) -> LoopShape {
    if has_commands && has_events {
        LoopShape::CommandsAndEvents
    } else if has_commands {
        LoopShape::CommandsOnly
    } else if has_events {
        LoopShape::EventsOnly
    } else {
        LoopShape::Idle
    }
}

/// The loop shape of a service with or without commands and event handlers.
pub fn loop_shape(has_commands: bool, has_events: bool) -> (shape: LoopShape)
    ensures
        shape == loop_shape_of(has_commands, has_events),
{
    if has_commands && has_events {
        LoopShape::CommandsAndEvents
    } else if has_commands {
        LoopShape::CommandsOnly
    } else if has_events {
        LoopShape::EventsOnly
    } else {
        LoopShape::Idle
    }
}

/// A word inside a field's `#[grove(...)]` attribute, for the derive form of
/// a service.
#[derive(Clone, Copy, Debug, PartialEq, Eq, Structural)]
pub enum FieldWord {
    /// `get`: generate a getter on the handle.
    Get,
    /// `skip`: no getter (for injected handles).
    Skip,
    /// Any other word.
    Other,
}

/// Why a field's attributes are refused.
#[derive(Clone, Copy, Debug, PartialEq, Eq, Structural)]
pub enum FieldAttrError {
    /// Attribute `attr` holds a word other than `get` and `skip`.
    UnknownWord { attr: usize },
    /// Attribute `attr` holds both `get` and `skip`.
    GetAndSkip { attr: usize },
}

/// Whether a word list holds `word`.
pub open spec fn has_word(words: Seq<FieldWord>, word: FieldWord) -> bool {
    exists|k: int| 0 <= k < words.len() && words[k] == word
}

/// Whether a word list holds a word other than `get` and `skip`.
pub open spec fn has_unknown_word(words: Seq<FieldWord>) -> bool {
    exists|k: int| 0 <= k < words.len() && words[k] == FieldWord::Other
}

/// Whether attribute `a` of `attrs` settles the field: it is refused, or it
/// says `get` or `skip`.
pub open spec fn settles(attrs: Seq<Vec<FieldWord>>, a: int) -> bool {
    has_unknown_word(attrs[a]@) || has_word(attrs[a]@, FieldWord::Get) || has_word(
        attrs[a]@,
        FieldWord::Skip,
    )
}

/// The outcome of the first attribute that settles a field: refused for an
/// unknown word or for both `get` and `skip`, otherwise whether it asks for
/// a getter.
pub open spec fn settled_outcome(words: Seq<FieldWord>, a: int) -> Result<bool, FieldAttrError> {
    if has_unknown_word(words) {
        Err(FieldAttrError::UnknownWord { attr: a as usize })
    } else if has_word(words, FieldWord::Get) && has_word(words, FieldWord::Skip) {
        Err(FieldAttrError::GetAndSkip { attr: a as usize })
    } else {
        Ok(has_word(words, FieldWord::Get))
    }
}

/// Decides from a field's `#[grove(...)]` attributes, each given as its list
/// of words, whether the field gets a getter: the first attribute with any
/// of `get`, `skip` or another word decides it, and attributes with no words
/// are passed over.
pub fn field_getter(attrs: &Vec<Vec<FieldWord>>) -> (getter: Result<bool, FieldAttrError>)
    ensures
        (forall|a: int| 0 <= a < attrs@.len() ==> !#[trigger] settles(attrs@, a)) ==> getter
            == Ok::<bool, FieldAttrError>(false),
        forall|a: int|
            #![trigger settles(attrs@, a)]
            0 <= a < attrs@.len() && settles(attrs@, a) && (forall|b: int|
                0 <= b < a ==> !#[trigger] settles(attrs@, b)) ==> getter == settled_outcome(
                attrs@[a]@,
                a,
            ),
{
    let mut a: usize = 0;
    while a < attrs.len()
        invariant
            a <= attrs.len(),
            forall|b: int| 0 <= b < a ==> !#[trigger] settles(attrs@, b),
        decreases attrs.len() - a,
    {
        let list = &attrs[a];
        let mut get = false;
        let mut skip = false;
        let mut unknown = false;
        let mut k: usize = 0;
        while k < list.len()
            invariant
                k <= list.len(),
                get == exists|j: int| 0 <= j < k && list@[j] == FieldWord::Get,
                skip == exists|j: int| 0 <= j < k && list@[j] == FieldWord::Skip,
                unknown == exists|j: int| 0 <= j < k && list@[j] == FieldWord::Other,
            decreases list.len() - k,
        {
            match list[k] {
                FieldWord::Get => {
                    get = true;
                },
                FieldWord::Skip => {
                    skip = true;
                },
                FieldWord::Other => {
                    unknown = true;
                },
            }
            k = k + 1;
        }
        proof {
            assert(attrs@[a as int]@ == list@);
            assert(get == has_word(list@, FieldWord::Get));
            assert(skip == has_word(list@, FieldWord::Skip));
            assert(unknown == has_unknown_word(list@));
            assert(settles(attrs@, a as int) == (unknown || get || skip));
        }
        if unknown {
            return Err(FieldAttrError::UnknownWord { attr: a });
        }
        if get && skip {
            return Err(FieldAttrError::GetAndSkip { attr: a });
        }
        if get {
            return Ok(true);
        }
        if skip {
            return Ok(false);
        }
        a = a + 1;
    }
    Ok(false)
}

// ============================================================================
// Method attributes
// ============================================================================

/// A word inside a method's `#[grove(...)]` attribute.
#[derive(Clone, Copy, Debug, PartialEq, Eq, Structural)]
pub enum MethodWord {
    Command,
    Poll,
    Direct,
    DirectMut,
    Task,
    /// `from = field`; the generator keeps the field of the last one.
    From,
    /// Any other word, which is passed over.
    Other,
}

/// Whether `words` holds `word`.
pub open spec fn has_method_word(words: Seq<MethodWord>, word: MethodWord) -> bool {
    exists|k: int| 0 <= k < words.len() && words[k] == word
}

/// The attributes that the words of a method's `#[grove(...)]` attributes
/// give it: each flag is set when its word occurs anywhere.
pub open spec fn attrs_of_words(words: Seq<MethodWord>) -> MethodAttrs {
    MethodAttrs {
        is_command: has_method_word(words, MethodWord::Command),
        is_poll: has_method_word(words, MethodWord::Poll),
        is_direct: has_method_word(words, MethodWord::Direct),
        is_direct_mut: has_method_word(words, MethodWord::DirectMut),
        is_task: has_method_word(words, MethodWord::Task),
        has_from: has_method_word(words, MethodWord::From),
    }
}

/// The attributes that the words of a method's `#[grove(...)]` attributes
/// give it, all attributes' words in order.
pub fn method_attrs_of(words: &Vec<MethodWord>) -> (attrs: MethodAttrs)
    ensures
        attrs == attrs_of_words(words@),
{
    let mut attrs = MethodAttrs {
        is_command: false,
        is_poll: false,
        is_direct: false,
        is_direct_mut: false,
        is_task: false,
        has_from: false,
    };
    let mut k: usize = 0;
    while k < words.len()
        invariant
            k <= words.len(),
            attrs == attrs_of_words(words@.take(k as int)),
        decreases words.len() - k,
    {
        let ghost before = words@.take(k as int);
        let ghost after = words@.take(k + 1);
        assert(after == before.push(words@[k as int]));
        match words[k] {
            MethodWord::Command => { attrs.is_command = true; },
            MethodWord::Poll => { attrs.is_poll = true; },
            MethodWord::Direct => { attrs.is_direct = true; },
            MethodWord::DirectMut => { attrs.is_direct_mut = true; },
            MethodWord::Task => { attrs.is_task = true; },
            MethodWord::From => { attrs.has_from = true; },
            MethodWord::Other => {},
        }
        proof {
            lemma_words_push(before, words@[k as int]);
        }
        k = k + 1;
    }
    assert(words@.take(words.len() as int) =~= words@);
    attrs
}

/// A word occurs in `words` pushed with `w` when it occurs in `words` or is `w`.
proof fn lemma_words_push(words: Seq<MethodWord>, w: MethodWord)
    ensures
        forall|x: MethodWord|
            #[trigger] has_method_word(words.push(w), x) == (has_method_word(words, x) || x == w),
{
    assert forall|x: MethodWord|
        #[trigger] has_method_word(words.push(w), x) == (has_method_word(words, x) || x == w) by {
        if has_method_word(words, x) {
            let k = choose|k: int| 0 <= k < words.len() && words[k] == x;
            assert(words.push(w)[k] == x);
        }
        if x == w {
            assert(words.push(w)[words.len() as int] == x);
        }
        if has_method_word(words.push(w), x) {
            let k = choose|k: int| 0 <= k < words.len() + 1 && words.push(w)[k] == x;
            if k < words.len() {
                assert(words[k] == x);
            }
        }
    }
}

// ============================================================================
// Handler plan
// ============================================================================

/// What the generator knows of a method of a `#[grove::handlers]` block.
pub struct MethodInfo {
    /// The method's name.
    pub name: String,
    /// The words of its `#[grove(...)]` attributes, in order.
    pub words: Vec<MethodWord>,
    /// How many parameters it has besides `self`.
    pub param_count: usize,
}

/// The role of a method.
pub open spec fn role_of_method(m: MethodInfo) -> MethodRole {
    role_of(attrs_of_words(m.words@))
}

/// Whether a role is a command's.
pub open spec fn is_command_role(role: MethodRole) -> bool {
    role is Command
}

/// The positions of the command methods among `methods`, in order.
pub open spec fn command_positions(methods: Seq<MethodInfo>) -> Seq<int>
    decreases methods.len(),
{
    if methods.len() == 0 {
        Seq::empty()
    } else {
        let before = command_positions(methods.drop_last());
        if is_command_role(role_of_method(methods.last())) {
            before.push(methods.len() - 1)
        } else {
            before
        }
    }
}

/// The positions of the task methods among `methods`, in order.
pub open spec fn task_positions(methods: Seq<MethodInfo>) -> Seq<int>
    decreases methods.len(),
{
    if methods.len() == 0 {
        Seq::empty()
    } else {
        let before = task_positions(methods.drop_last());
        if role_of_method(methods.last()) == MethodRole::Task {
            before.push(methods.len() - 1)
        } else {
            before
        }
    }
}

/// The parameters a task takes beyond its handle and token.
pub open spec fn task_extra_params(param_count: usize) -> usize {
    if param_count > TASK_FIXED_PARAMS {
        (param_count - TASK_FIXED_PARAMS) as usize
    } else {
        0
    }
}

/// A command of the generated command enum.
pub struct CommandPlan {
    /// Its position among the block's methods.
    pub method: usize,
    /// Its index in the command enum and in the metrics counters.
    pub index: usize,
    /// The method's name, which the metrics report.
    pub name: String,
    /// The enum variant: the name in PascalCase.
    pub variant: String,
    /// How many leading parameters `poll()` supplies instead of the caller.
    pub skipped: usize,
    /// Whether its work runs on `poll()`.
    pub queues_for_poll: bool,
}

/// A background task.
pub struct TaskPlan {
    /// Its position among the block's methods.
    pub method: usize,
    /// The parameters it takes beyond its handle and token.
    pub extra_params: usize,
}

/// What the generator makes of a `#[grove::handlers]` block.
pub struct HandlersPlan {
    /// The role of each method, in order.
    pub roles: Vec<MethodRole>,
    /// The commands, in the order of their methods.
    pub commands: Vec<CommandPlan>,
    /// The tasks, in the order of their methods.
    pub tasks: Vec<TaskPlan>,
    /// Whether spawning goes through a builder.
    pub needs_builder: bool,
    /// How the main loop waits.
    pub shape: LoopShape,
}

/// Whether some method of `methods` handles events.
pub open spec fn has_event_handler(methods: Seq<MethodInfo>) -> bool {
    exists|i: int| 0 <= i < methods.len() && role_of_method(methods[i]) == MethodRole::EventHandler
}

/// Sorts the methods of a `#[grove::handlers]` block, given the number of
/// poll arguments the block declares: each method's role; the commands, each
/// with its index, name, PascalCase variant and the parameters `poll()`
/// supplies; the tasks with their extra parameters; whether spawning needs a
/// builder; and the main loop's shape.
pub fn plan_handlers(methods: &Vec<MethodInfo>, poll_args: usize) -> (plan: HandlersPlan)
    ensures
        plan.roles@.len() == methods@.len(),
        forall|i: int| 0 <= i < methods@.len() ==> #[trigger] plan.roles@[i] == role_of_method(methods@[i]),
        plan.commands@.len() == command_positions(methods@).len(),
        forall|i: int|
            #![trigger plan.commands@[i]]
            0 <= i < plan.commands@.len() ==> {
                let c = plan.commands@[i];
                &&& c.index == i
                &&& c.method == command_positions(methods@)[i]
                &&& c.name@ == methods@[c.method as int].name@
                &&& c.variant@ == pascal_case(c.name@)
                &&& c.queues_for_poll == (role_of_method(methods@[c.method as int]) == MethodRole::Command { queues_for_poll: true })
                &&& c.skipped == skipped_params(role_of_method(methods@[c.method as int]), poll_args)
            },
        plan.tasks@.len() == task_positions(methods@).len(),
        forall|i: int|
            #![trigger plan.tasks@[i]]
            0 <= i < plan.tasks@.len() ==> {
                let t = plan.tasks@[i];
                &&& t.method == task_positions(methods@)[i]
                &&& t.extra_params == task_extra_params(methods@[t.method as int].param_count)
            },
        plan.needs_builder == exists|i: int|
            0 <= i < plan.tasks@.len() && #[trigger] plan.tasks@[i].extra_params > 0,
        plan.shape == loop_shape_of(plan.commands@.len() > 0, has_event_handler(methods@)),
{
    let mut roles: Vec<MethodRole> = Vec::new();
    let mut commands: Vec<CommandPlan> = Vec::new();
    let mut tasks: Vec<TaskPlan> = Vec::new();
    let mut needs_builder = false;
    let mut has_events = false;
    let mut i: usize = 0;
    while i < methods.len()
        invariant
            i <= methods.len(),
            roles@.len() == i,
            forall|j: int| 0 <= j < i ==> #[trigger] roles@[j] == role_of_method(methods@[j]),
            commands@.len() == command_positions(methods@.take(i as int)).len(),
            forall|j: int|
                #![trigger commands@[j]]
                0 <= j < commands@.len() ==> {
                    let c = commands@[j];
                    &&& c.index == j
                    &&& c.method == command_positions(methods@.take(i as int))[j]
                    &&& c.method < i
                    &&& c.name@ == methods@[c.method as int].name@
                    &&& c.variant@ == pascal_case(c.name@)
                    &&& c.queues_for_poll == (role_of_method(methods@[c.method as int]) == MethodRole::Command { queues_for_poll: true })
                    &&& c.skipped == skipped_params(role_of_method(methods@[c.method as int]), poll_args)
                },
            tasks@.len() == task_positions(methods@.take(i as int)).len(),
            forall|j: int|
                #![trigger tasks@[j]]
                0 <= j < tasks@.len() ==> {
                    let t = tasks@[j];
                    &&& t.method == task_positions(methods@.take(i as int))[j]
                    &&& t.method < i
                    &&& t.extra_params == task_extra_params(methods@[t.method as int].param_count)
                },
            needs_builder == exists|j: int| 0 <= j < tasks@.len() && #[trigger] tasks@[j].extra_params > 0,
            has_events == exists|j: int|
                0 <= j < i && role_of_method(#[trigger] methods@[j]) == MethodRole::EventHandler,
        decreases methods.len() - i,
    {
        let m = &methods[i];
        let ghost prefix = methods@.take(i as int);
        let ghost next = methods@.take(i + 1);
        assert(next.drop_last() =~= prefix);
        assert(next.last() == methods@[i as int]);
        let attrs = method_attrs_of(&m.words);
        let role = classify_method(&attrs);
        roles.push(role);
        match role {
            MethodRole::Command { queues_for_poll } => {
                let name = m.name.clone();
                let variant = to_pascal_case(name.as_str());
                let skipped = leading_params_skipped(role, poll_args);
                let index = commands.len();
                commands.push(CommandPlan { method: i, index, name, variant, skipped, queues_for_poll });
            },
            MethodRole::Task => {
                let extra_params = if m.param_count > TASK_FIXED_PARAMS {
                    m.param_count - TASK_FIXED_PARAMS
                } else {
                    0
                };
                let ghost before = tasks@;
                if extra_params > 0 {
                    needs_builder = true;
                }
                tasks.push(TaskPlan { method: i, extra_params });
                proof {
                    assert(tasks@[tasks@.len() - 1].extra_params == extra_params);
                    assert forall|j: int| 0 <= j < before.len() implies #[trigger] tasks@[j] == before[j] by {}
                    if needs_builder && extra_params == 0 {
                        let j = choose|j: int| 0 <= j < before.len() && #[trigger] before[j].extra_params > 0;
                        assert(tasks@[j].extra_params > 0);
                    }
                }
            },
            MethodRole::EventHandler => {
                has_events = true;
            },
            _ => {},
        }
        i = i + 1;
    }
    assert(methods@.take(methods.len() as int) =~= methods@);
    let shape = loop_shape(commands.len() > 0, has_events);
    let plan = HandlersPlan { roles, commands, tasks, needs_builder, shape };
    assert(plan.tasks@ == tasks@);
    assert(plan.needs_builder == exists|i: int|
        0 <= i < plan.tasks@.len() && #[trigger] plan.tasks@[i].extra_params > 0);
    plan
}

// ============================================================================
// Main loop
// ============================================================================

/// Where a service's main loop is.
#[derive(Clone, Copy, Debug, PartialEq, Eq, Structural)]
pub enum LoopPhase {
    /// Waiting for commands, events and cancellation.
    Running,
    /// Cancelled: running the commands still queued, then stopping.
    Draining,
    /// Exited.
    Stopped,
}

/// What the main loop just saw.
#[derive(Clone, Copy, Debug, PartialEq, Eq, Structural)]
pub enum LoopEvent {
    /// The service's cancellation token was cancelled.
    Cancelled,
    /// Command `index` of the command enum came out of the channel.
    Command { index: usize },
    /// The command channel is closed.
    ChannelClosed,
    /// The command channel holds no more commands.
    ChannelEmpty,
    /// An event for handler `handler` came in.
    Event { handler: usize },
    /// The idle timer fired.
    Timer,
}

/// What the main loop does next.
#[derive(Clone, Copy, Debug, PartialEq, Eq, Structural)]
pub enum LoopAction {
    /// Run the command, then count it as processed (and sample the depth
    /// when due).
    RunCommand { index: usize },
    /// Take the next queued command without waiting.
    Drain,
    /// Run a command taken while draining, then count it as processed (and
    /// sample the depth when due), and go on draining.
    RunDrained { index: usize },
    /// Run the event handler.
    HandleEvent { handler: usize },
    /// Wait for what comes next.
    Wait,
    /// Exit the loop.
    Stop,
}

/// Whether a loop of this shape takes commands.
pub open spec fn takes_commands(shape: LoopShape) -> bool {
    shape == LoopShape::CommandsAndEvents || shape == LoopShape::CommandsOnly
}

/// Whether a loop of this shape takes events.
pub open spec fn takes_events(shape: LoopShape) -> bool {
    shape == LoopShape::CommandsAndEvents || shape == LoopShape::EventsOnly
}

/// Whether `action` runs a command taken from the channel and counts it as
/// processed.
pub open spec fn runs_and_counts(action: LoopAction) -> bool {
    action is RunCommand || action is RunDrained
}

/// One step of a service's main loop of shape `shape`: the phase after
/// `event` in `phase`, and what to do.
pub open spec fn loop_step_of(shape: LoopShape, phase: LoopPhase, event: LoopEvent) -> (LoopPhase, LoopAction) {
    match phase {
        LoopPhase::Stopped => (LoopPhase::Stopped, LoopAction::Stop),
        LoopPhase::Draining => match event {
            LoopEvent::Command { index } => (LoopPhase::Draining, LoopAction::RunDrained { index }),
            LoopEvent::ChannelEmpty => (LoopPhase::Stopped, LoopAction::Stop),
            LoopEvent::ChannelClosed => (LoopPhase::Stopped, LoopAction::Stop),
            _ => (LoopPhase::Draining, LoopAction::Drain),
        },
        LoopPhase::Running => match event {
            LoopEvent::Cancelled => if takes_commands(shape) {
                (LoopPhase::Draining, LoopAction::Drain)
            } else {
                (LoopPhase::Stopped, LoopAction::Stop)
            },
            LoopEvent::Command { index } => if takes_commands(shape) {
                (LoopPhase::Running, LoopAction::RunCommand { index })
            } else {
                (LoopPhase::Running, LoopAction::Wait)
            },
            LoopEvent::ChannelClosed => if takes_commands(shape) {
                (LoopPhase::Stopped, LoopAction::Stop)
            } else {
                (LoopPhase::Running, LoopAction::Wait)
            },
            LoopEvent::Event { handler } => if takes_events(shape) {
                (LoopPhase::Running, LoopAction::HandleEvent { handler })
            } else {
                (LoopPhase::Running, LoopAction::Wait)
            },
            _ => (LoopPhase::Running, LoopAction::Wait),
        },
    }
}

/// One step of a service's main loop of shape `shape`.
pub fn loop_step(shape: LoopShape, phase: LoopPhase, event: LoopEvent) -> (next: (LoopPhase, LoopAction))
    ensures
        next == loop_step_of(shape, phase, event),
{
    let commands = match shape {
        LoopShape::CommandsAndEvents => true,
        LoopShape::CommandsOnly => true,
        _ => false,
    };
    let events = match shape {
        LoopShape::CommandsAndEvents => true,
        LoopShape::EventsOnly => true,
        _ => false,
    };
    match phase {
        LoopPhase::Stopped => (LoopPhase::Stopped, LoopAction::Stop),
        LoopPhase::Draining => match event {
            LoopEvent::Command { index } => (LoopPhase::Draining, LoopAction::RunDrained { index }),
            LoopEvent::ChannelEmpty => (LoopPhase::Stopped, LoopAction::Stop),
            LoopEvent::ChannelClosed => (LoopPhase::Stopped, LoopAction::Stop),
            _ => (LoopPhase::Draining, LoopAction::Drain),
        },
        LoopPhase::Running => match event {
            LoopEvent::Cancelled => if commands {
                (LoopPhase::Draining, LoopAction::Drain)
            } else {
                (LoopPhase::Stopped, LoopAction::Stop)
            },
            LoopEvent::Command { index } => if commands {
                (LoopPhase::Running, LoopAction::RunCommand { index })
            } else {
                (LoopPhase::Running, LoopAction::Wait)
            },
            LoopEvent::ChannelClosed => if commands {
                (LoopPhase::Stopped, LoopAction::Stop)
            } else {
                (LoopPhase::Running, LoopAction::Wait)
            },
            LoopEvent::Event { handler } => if events {
                (LoopPhase::Running, LoopAction::HandleEvent { handler })
            } else {
                (LoopPhase::Running, LoopAction::Wait)
            },
            _ => (LoopPhase::Running, LoopAction::Wait),
        },
    }
}

/// The loop of a service with commands does not stop on cancellation while
/// commands are queued: it drains, runs and counts each queued command, and
/// stops only once the channel is empty or closed.
pub proof fn law_cancel_drains_queued_commands(shape: LoopShape, index: usize, other: LoopEvent)
    requires
        takes_commands(shape),
        other != LoopEvent::ChannelEmpty,
        other != LoopEvent::ChannelClosed,
        !(other is Command),
    ensures
        loop_step_of(shape, LoopPhase::Running, LoopEvent::Cancelled) == (LoopPhase::Draining, LoopAction::Drain),
        loop_step_of(shape, LoopPhase::Draining, LoopEvent::Command { index }) == (LoopPhase::Draining, LoopAction::RunDrained { index }),
        runs_and_counts(loop_step_of(shape, LoopPhase::Draining, LoopEvent::Command { index }).1),
        loop_step_of(shape, LoopPhase::Draining, other) == (LoopPhase::Draining, LoopAction::Drain),
        loop_step_of(shape, LoopPhase::Draining, LoopEvent::ChannelEmpty).0 == LoopPhase::Stopped,
{
}

/// While running, every command that comes out of the channel is run and
/// counted; once stopped, the loop stays stopped.
pub proof fn law_running_commands_are_counted(shape: LoopShape, index: usize, event: LoopEvent)
    requires
        takes_commands(shape),
    ensures
        loop_step_of(shape, LoopPhase::Running, LoopEvent::Command { index }) == (LoopPhase::Running, LoopAction::RunCommand { index }),
        runs_and_counts(loop_step_of(shape, LoopPhase::Running, LoopEvent::Command { index }).1),
        loop_step_of(shape, LoopPhase::Stopped, event) == (LoopPhase::Stopped, LoopAction::Stop),
{
}

/// A running loop that takes events runs the handler of every event it sees:
/// in a service with event handlers (with or without commands), an event for
/// handler `handler` keeps the loop running and runs that handler.
pub proof fn law_running_events_are_handled(shape: LoopShape, handler: usize)
    requires
        shape == LoopShape::CommandsAndEvents || shape == LoopShape::EventsOnly,
    ensures
        loop_step_of(shape, LoopPhase::Running, LoopEvent::Event { handler }) == (
            LoopPhase::Running,
            LoopAction::HandleEvent { handler },
        ),
{
}

/// A loop without event handlers never runs one, and a loop without
/// commands never runs one: what comes in that the shape does not take is
/// waited past.
pub proof fn law_loop_runs_only_what_its_shape_takes(shape: LoopShape, handler: usize, index: usize)
    ensures
        (shape == LoopShape::CommandsOnly || shape == LoopShape::Idle) ==> loop_step_of(
            shape,
            LoopPhase::Running,
            LoopEvent::Event { handler },
        ) == (LoopPhase::Running, LoopAction::Wait),
        (shape == LoopShape::EventsOnly || shape == LoopShape::Idle) ==> loop_step_of(
            shape,
            LoopPhase::Running,
            LoopEvent::Command { index },
        ) == (LoopPhase::Running, LoopAction::Wait),
{
}

} // verus!
