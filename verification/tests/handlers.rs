use grove::handlers::{
    classify_method, field_getter, leading_params_skipped, loop_shape,
    FieldAttrError, FieldWord, LoopShape, MethodAttrs, MethodRole,
};

fn attrs() -> MethodAttrs {
    MethodAttrs {
        is_command: false,
        is_poll: false,
        is_direct: false,
        is_direct_mut: false,
        is_task: false,
        has_from: false,
    }
}

#[test]
fn command_wins_over_other_words() {
    let a = MethodAttrs { is_command: true, is_poll: true, is_direct: true, is_task: true, ..attrs() };
    assert_eq!(classify_method(&a), MethodRole::Command { queues_for_poll: true });
    let plain_poll = MethodAttrs { is_poll: true, ..attrs() };
    assert_eq!(classify_method(&plain_poll), MethodRole::Plain);
}

#[test]
fn roles_in_order() {
    assert_eq!(classify_method(&MethodAttrs { is_direct: true, is_direct_mut: true, ..attrs() }), MethodRole::Direct);
    assert_eq!(classify_method(&MethodAttrs { is_direct_mut: true, has_from: true, ..attrs() }), MethodRole::DirectMut);
    assert_eq!(classify_method(&MethodAttrs { has_from: true, is_task: true, ..attrs() }), MethodRole::EventHandler);
    assert_eq!(classify_method(&MethodAttrs { is_task: true, ..attrs() }), MethodRole::Task);
    assert_eq!(classify_method(&attrs()), MethodRole::Plain);
}

#[test]
fn skipped_leading_params() {
    assert_eq!(leading_params_skipped(MethodRole::Command { queues_for_poll: true }, 2), 2);
    assert_eq!(leading_params_skipped(MethodRole::Command { queues_for_poll: false }, 2), 0);
    assert_eq!(leading_params_skipped(MethodRole::Task, 5), 2);
    assert_eq!(leading_params_skipped(MethodRole::Direct, 5), 0);
}

#[test]
fn loop_shapes() {
    assert_eq!(loop_shape(true, true), LoopShape::CommandsAndEvents);
    assert_eq!(loop_shape(true, false), LoopShape::CommandsOnly);
    assert_eq!(loop_shape(false, true), LoopShape::EventsOnly);
    assert_eq!(loop_shape(false, false), LoopShape::Idle);
}

#[test]
fn field_getter_rules() {
    assert_eq!(field_getter(&vec![]), Ok(false));
    assert_eq!(field_getter(&vec![vec![], vec![FieldWord::Get]]), Ok(true));
    assert_eq!(field_getter(&vec![vec![FieldWord::Skip], vec![FieldWord::Get]]), Ok(false));
    assert_eq!(
        field_getter(&vec![vec![FieldWord::Get, FieldWord::Skip]]),
        Err(FieldAttrError::GetAndSkip { attr: 0 })
    );
    assert_eq!(
        field_getter(&vec![vec![], vec![FieldWord::Get, FieldWord::Other]]),
        Err(FieldAttrError::UnknownWord { attr: 1 })
    );
}

use grove::handlers::{
    loop_step, method_attrs_of, plan_handlers, LoopAction, LoopEvent, LoopPhase, MethodInfo,
    MethodWord,
};

#[test]
fn method_attrs_from_words() {
    let a = method_attrs_of(&vec![MethodWord::Other, MethodWord::Command, MethodWord::Poll]);
    assert!(a.is_command && a.is_poll && !a.is_direct && !a.is_task && !a.has_from);
    let b = method_attrs_of(&vec![MethodWord::From, MethodWord::From]);
    assert!(b.has_from && !b.is_command);
}

fn info(name: &str, words: Vec<MethodWord>, param_count: usize) -> MethodInfo {
    MethodInfo { name: name.to_string(), words, param_count }
}

#[test]
fn plan_of_a_handlers_block() {
    let methods = vec![
        info("send_message", vec![MethodWord::Command], 1),
        info("helper", vec![], 0),
        info("poll_prices", vec![MethodWord::Task], 3),
        info("render", vec![MethodWord::Command, MethodWord::Poll], 1),
        info("on_message_sent", vec![MethodWord::From], 1),
        info("tick", vec![MethodWord::Task], 2),
    ];
    let plan = plan_handlers(&methods, 1);
    assert_eq!(plan.roles.len(), 6);
    assert_eq!(plan.roles[1], MethodRole::Plain);
    assert_eq!(plan.commands.len(), 2);
    assert_eq!(plan.commands[0].index, 0);
    assert_eq!(plan.commands[0].method, 0);
    assert_eq!(plan.commands[0].name, "send_message");
    assert_eq!(plan.commands[0].variant, "SendMessage");
    assert_eq!(plan.commands[0].skipped, 0);
    assert_eq!(plan.commands[1].index, 1);
    assert_eq!(plan.commands[1].method, 3);
    assert_eq!(plan.commands[1].variant, "Render");
    assert!(plan.commands[1].queues_for_poll);
    assert_eq!(plan.commands[1].skipped, 1);
    assert_eq!(plan.tasks.len(), 2);
    assert_eq!(plan.tasks[0].extra_params, 1);
    assert_eq!(plan.tasks[1].extra_params, 0);
    assert!(plan.needs_builder);
    assert_eq!(plan.shape, LoopShape::CommandsAndEvents);
}

#[test]
fn cancelled_loop_drains_queued_commands() {
    let shape = LoopShape::CommandsOnly;
    let (phase, action) = loop_step(shape, LoopPhase::Running, LoopEvent::Command { index: 2 });
    assert_eq!((phase, action), (LoopPhase::Running, LoopAction::RunCommand { index: 2 }));
    let (phase, action) = loop_step(shape, phase, LoopEvent::Cancelled);
    assert_eq!((phase, action), (LoopPhase::Draining, LoopAction::Drain));
    let (phase, action) = loop_step(shape, phase, LoopEvent::Command { index: 0 });
    assert_eq!((phase, action), (LoopPhase::Draining, LoopAction::RunDrained { index: 0 }));
    let (phase, action) = loop_step(shape, phase, LoopEvent::ChannelEmpty);
    assert_eq!((phase, action), (LoopPhase::Stopped, LoopAction::Stop));
    assert_eq!(loop_step(shape, phase, LoopEvent::Command { index: 1 }), (LoopPhase::Stopped, LoopAction::Stop));
}

#[test]
fn loop_without_commands_stops_on_cancel() {
    let (phase, action) = loop_step(LoopShape::EventsOnly, LoopPhase::Running, LoopEvent::Event { handler: 1 });
    assert_eq!((phase, action), (LoopPhase::Running, LoopAction::HandleEvent { handler: 1 }));
    assert_eq!(loop_step(LoopShape::Idle, LoopPhase::Running, LoopEvent::Timer), (LoopPhase::Running, LoopAction::Wait));
    assert_eq!(loop_step(LoopShape::Idle, LoopPhase::Running, LoopEvent::Cancelled), (LoopPhase::Stopped, LoopAction::Stop));
}
