use cyberorto::action::{
    dir_name_string, kind_of, millis_to_u64, ActionKind, ActionWrapper, CommandListAction, CommandListStep, Context,
    EmergencyAction, LoadError,
};
use cyberorto::queue::{
    same_multiset, sort_key_of, EmergencyStatus, NextStep, Queue, QueueTestStats, ReorderError,
    StepOutcome, StepResult,
};

type TestQueue = Queue<&'static str, u32, u8, &'static str>;

fn ids(q: &TestQueue) -> Vec<u32> {
    q.actions.iter().map(|a| a.get_id()).collect()
}

fn queue_with(n: usize) -> TestQueue {
    let mut q = Queue::new("/data/queue".to_string());
    for _ in 0..n {
        q.add_action("a", "command_list");
    }
    q
}

#[test]
fn add_action_hands_out_ids_in_order() {
    let mut q: TestQueue = Queue::new("/data/queue".to_string());
    assert_eq!(q.add_action("first", "command_list"), 0);
    assert_eq!(q.add_action("second", "emergency"), 1);
    assert_eq!(ids(&q), vec![0, 1]);
    assert_eq!(q.id_counter, 2);
    assert_eq!(q.actions[1].get_type_name(), "emergency");
    assert_eq!(q.actions[1].get_save_dir(), "/data/queue/1_emergency");
    assert_eq!(q.actions[0].get_save_dir(), "/data/queue/0_command_list");
    assert_eq!(q.actions[0].action, Some("first"));
}

#[test]
fn ids_wrap_around() {
    let mut q: TestQueue = Queue::new("d".to_string());
    q.id_counter = u32::MAX;
    assert_eq!(q.add_action("x", "emergency"), u32::MAX);
    assert_eq!(q.id_counter, 0);
}

#[test]
fn flags() {
    let mut q = queue_with(2);
    assert!(q.is_idle());
    q.pause();
    assert!(q.paused);
    q.unpause();
    assert!(!q.paused);
    q.stop();
    assert!(q.stopped);
    q.clear();
    assert!(q.actions.is_empty());
}

#[test]
fn next_step_decisions() {
    let mut q = queue_with(1);
    assert_eq!(q.next_step(&None), NextStep::StartFront);
    let running = q.extract_front().unwrap();
    assert!(q.actions[0].is_placeholder());
    assert_eq!(running.get_id(), 0);
    let prev = Some(running);
    assert_eq!(q.next_step(&prev), NextStep::ContinuePrev);
    q.pause();
    assert_eq!(q.next_step(&prev), NextStep::ReleasePrev);
    assert_eq!(q.next_step(&None), NextStep::Wait);
    q.signal_emergency();
    assert_eq!(q.next_step(&None), NextStep::StartEmergency);
    let e = q.start_emergency("emergency!", EmergencyAction::get_type_name());
    assert_eq!(e.get_id(), 1);
    assert_eq!(q.emergency, EmergencyStatus::Resetting);
    assert_eq!(q.next_step(&None), NextStep::Wait);
    q.stop();
    assert_eq!(q.next_step(&prev), NextStep::ReleasePrev);
    assert_eq!(q.next_step(&None), NextStep::Stop);
}

#[test]
fn extract_then_release_restores_queue() {
    let mut q = queue_with(2);
    let running = q.extract_front().unwrap();
    assert_eq!(q.actions[0].action, None);
    assert_eq!(q.release_prev_action(running).is_none(), true);
    assert_eq!(ids(&q), vec![0, 1]);
    assert_eq!(q.actions[0].action, Some("a"));
}

#[test]
fn extract_of_placeholder_gives_nothing() {
    let mut q = queue_with(1);
    let _running = q.extract_front().unwrap();
    assert!(q.extract_front().is_none());
}

#[test]
fn release_of_deleted_or_finished_action() {
    let mut q = queue_with(2);
    let running = q.extract_front().unwrap();
    q.clear();
    // placeholder was deleted: the action comes back to have its data deleted
    let back = q.release_prev_action(running);
    assert_eq!(back.unwrap().get_id(), 0);
    assert!(q.actions.is_empty());

    let mut q = queue_with(2);
    let mut running = q.extract_front().unwrap();
    assert_eq!(running.finish(), Some("a"));
    let back = q.release_prev_action(running);
    assert!(back.is_some());
    assert_eq!(ids(&q), vec![1]);
}

#[test]
fn kill_running_action_pauses_and_hands_killer() {
    let mut q = queue_with(1);
    q.begin_step(0, 7u8);
    assert!(!q.is_idle());
    assert_eq!(q.kill_running_action(3), None);
    assert!(q.paused);
    assert_eq!(q.kill_running_action(0), Some(7));
    assert_eq!(q.kill_running_action(0), None);
    q.begin_step(0, 9u8);
    assert_eq!(q.force_kill_any_running_action(), Some(9));
    assert_eq!(q.force_kill_any_running_action(), None);
}

#[test]
fn end_step_updates_progress_and_pause() {
    let mut q = queue_with(2);
    q.begin_step(1, 0u8);
    q.end_step(1, false, Some(42), None);
    assert!(q.is_idle());
    assert_eq!(q.running_killer, None);
    assert_eq!(q.actions[1].get_progress(), Some(42));
    assert_eq!(q.actions[0].get_progress(), None);
    q.end_step(1, true, None, None);
    assert!(q.paused);
    assert_eq!(q.actions[1].get_progress(), Some(42));
}

#[test]
fn step_outcomes() {
    let r: StepResult<u32, String> = StepResult::Running(Some(3));
    assert_eq!(r.outcome(100), StepOutcome { release: false, pause: false, progress: Some(3) });
    let r: StepResult<u32, String> = StepResult::RunningError("x".to_string());
    assert_eq!(r.outcome(100), StepOutcome { release: false, pause: true, progress: None });
    let r: StepResult<u32, String> = StepResult::Finished;
    assert_eq!(r.outcome(100), StepOutcome { release: true, pause: false, progress: Some(100) });
    let r: StepResult<u32, String> = StepResult::FinishedError("x".to_string());
    assert_eq!(r.outcome(100), StepOutcome { release: true, pause: false, progress: None });
}

#[test]
fn reorder_follows_new_order() {
    let mut q = queue_with(4);
    assert_eq!(q.reorder(vec![0, 1, 2, 3], vec![2, 0, 3, 1]), Ok(()));
    assert_eq!(ids(&q), vec![2, 0, 3, 1]);
    assert_eq!(q.actions[0].get_save_dir(), "/data/queue/2_command_list");
}

#[test]
fn reorder_refusals() {
    let mut q = queue_with(3);
    assert_eq!(
        q.reorder(vec![0, 1, 2], vec![0, 1, 1]),
        Err(ReorderError::MismatchedExpectedNew)
    );
    assert_eq!(q.reorder(vec![1, 0, 2], vec![0, 1, 2]), Err(ReorderError::QueueChanged));
    assert_eq!(ids(&q), vec![0, 1, 2]);
}

#[test]
fn reorder_with_duplicate_ids_is_stable() {
    let mut q = queue_with(3);
    q.actions[2].action = Some("b");
    // make the last action share id 0 with the first one
    let ctx = q.actions[0].ctx.clone();
    q.actions[2] = ActionWrapper::from_context("b", ctx);
    assert_eq!(q.reorder(vec![0, 1, 0], vec![1, 0, 0]), Ok(()));
    assert_eq!(ids(&q), vec![1, 0, 0]);
    assert_eq!(q.actions[1].action, Some("a"));
    assert_eq!(q.actions[2].action, Some("b"));
}

#[test]
fn multiset_and_keys() {
    assert!(same_multiset(&vec![1, 2, 2, 3], &vec![2, 3, 2, 1]));
    assert!(!same_multiset(&vec![1, 2, 2], &vec![1, 1, 2]));
    assert!(!same_multiset(&vec![1], &vec![1, 1]));
    assert_eq!(sort_key_of(&vec![4, 5, 4], 4), 2);
    assert_eq!(sort_key_of(&vec![4, 5, 4], 5), 1);
    assert_eq!(sort_key_of(&vec![4, 5, 4], 9), 3);
}

#[test]
fn context_from_dir_name() {
    let (ctx, kind) = Context::from_dir_name("12_command_list", "/q/12_command_list".to_string()).unwrap();
    assert_eq!(kind, ActionKind::CommandList);
    assert_eq!(ctx.get_id(), 12);
    assert_eq!(ctx.get_type_name(), "command_list");
    assert_eq!(ctx.get_save_dir(), "/q/12_command_list");

    let (ctx, kind) = Context::from_dir_name("+7_emergency", "e".to_string()).unwrap();
    assert_eq!(kind, ActionKind::Emergency);
    assert_eq!(ctx.get_id(), 7);

    assert_eq!(Context::from_dir_name("12emergency", String::new()).err(), Some(LoadError::InvalidId));
    assert_eq!(Context::from_dir_name("12", String::new()).err(), Some(LoadError::InvalidFilename));
    assert_eq!(Context::from_dir_name("abc", String::new()).err(), Some(LoadError::InvalidId));
    assert_eq!(Context::from_dir_name("x1_emergency", String::new()).err(), Some(LoadError::InvalidId));
    assert_eq!(Context::from_dir_name("_emergency", String::new()).err(), Some(LoadError::InvalidId));
    assert_eq!(Context::from_dir_name("4294967296_emergency", String::new()).err(), Some(LoadError::InvalidId));
    assert_eq!(Context::from_dir_name("4294967295_other", String::new()).err(), Some(LoadError::InvalidTypeName));
    assert_eq!(Context::from_dir_name("3_emergency_2", String::new()).err(), Some(LoadError::InvalidTypeName));
}

#[test]
fn saved_dir_name_reads_back() {
    let w: ActionWrapper<u8, u8, u8> = ActionWrapper::new(1, 4000000000, "base", "emergency");
    let name = w.get_save_dir().rsplit('/').next().unwrap().to_string();
    assert_eq!(name, "4000000000_emergency");
    let (ctx, kind) = Context::from_dir_name(&name, w.get_save_dir().clone()).unwrap();
    assert_eq!(kind, ActionKind::Emergency);
    assert_eq!(ctx.get_id(), 4000000000);
}

#[test]
fn placeholder_extraction() {
    let mut w: ActionWrapper<u8, u8, u8> = ActionWrapper::new(5, 3, "d", "command_list");
    w.progress = Some(9);
    let taken = w.make_placeholder_and_extract();
    assert!(w.is_placeholder());
    assert_eq!(w.get_progress(), Some(9));
    assert_eq!(w.get_id(), 3);
    assert_eq!(taken.action, Some(5));
    assert_eq!(taken.get_progress(), Some(9));
}

#[test]
fn kinds() {
    assert_eq!(kind_of("emergency"), Some(ActionKind::Emergency));
    assert_eq!(kind_of("command_list"), Some(ActionKind::CommandList));
    assert_eq!(kind_of("Emergency"), None);
    assert_eq!(EmergencyAction::get_type_name(), "emergency");
    assert_eq!(CommandListAction::<u8>::get_type_name(), "command_list");
}

#[test]
fn command_list_progress() {
    let mut c = CommandListAction::new(vec!['a', 'b', 'c']);
    assert_eq!(c.next_command(), Some(&'a'));
    assert_eq!(c.command_succeeded(), CommandListStep::Running { steps_done_so_far: 1, steps_total: 3 });
    assert_eq!(c.next_command(), Some(&'b'));
    assert_eq!(c.command_succeeded(), CommandListStep::Running { steps_done_so_far: 2, steps_total: 3 });
    assert_eq!(c.command_succeeded(), CommandListStep::Finished);
    assert_eq!(c.next_command(), None);
    assert_eq!(c.get_steps_done_so_far(), 3);
    let empty: CommandListAction<char> = CommandListAction::new(vec![]);
    assert_eq!(empty.next_command(), None);
}

#[test]
fn millis_conversion() {
    assert_eq!(millis_to_u64(1500), Some(1500));
    assert_eq!(millis_to_u64(u64::MAX as u128), Some(u64::MAX));
    assert_eq!(millis_to_u64(u64::MAX as u128 + 1), None);
}

#[test]
fn test_stats() {
    let mut s = QueueTestStats::new();
    s.increase_wait_counter();
    s.increase_tick_counter();
    s.increase_tick_counter();
    assert_eq!(s.get_wait_counter(), 1);
    assert_eq!(s.get_tick_counter(), 2);
}

fn all_distinct_below_counter(q: &TestQueue) -> bool {
    let v = ids(q);
    v.iter().all(|id| *id < q.id_counter)
        && v.iter().enumerate().all(|(i, a)| v.iter().skip(i + 1).all(|b| a != b))
}

#[test]
fn ids_stay_unique_through_operations() {
    let mut q = queue_with(4);
    assert!(all_distinct_below_counter(&q));
    assert_eq!(q.reorder(vec![0, 1, 2, 3], vec![3, 1, 0, 2]), Ok(()));
    assert_eq!(ids(&q), vec![3, 1, 0, 2]);
    assert!(all_distinct_below_counter(&q));
    let mut running = q.extract_front().unwrap();
    assert!(all_distinct_below_counter(&q));
    q.end_step(3, false, Some(5), None);
    assert!(all_distinct_below_counter(&q));
    running.finish();
    assert!(q.release_prev_action(running).is_some());
    assert_eq!(ids(&q), vec![1, 0, 2]);
    q.add_action("b", "emergency");
    assert_eq!(ids(&q), vec![1, 0, 2, 4]);
    assert!(all_distinct_below_counter(&q));
}

#[test]
fn halted_queue_runs_no_action() {
    let mut q = queue_with(1);
    q.pause();
    assert_eq!(q.next_step(&None), NextStep::Wait);
    q.unpause();
    q.signal_emergency();
    assert_eq!(q.next_step(&None), NextStep::StartEmergency);
    let mut q = queue_with(1);
    q.stop();
    assert_eq!(q.next_step(&None), NextStep::Stop);
}

#[test]
fn previous_action_is_released_first() {
    let mut q = queue_with(2);
    let running = q.extract_front().unwrap();
    let prev = Some(running);
    // the front changed: the running action must be put back before anything else
    assert_eq!(q.reorder(vec![0, 1], vec![1, 0]), Ok(()));
    assert_eq!(q.next_step(&prev), NextStep::ReleasePrev);
    q.clear();
    assert_eq!(q.next_step(&prev), NextStep::ReleasePrev);
}

#[test]
fn step_error_is_recorded_and_kept_when_put_back() {
    let mut q = queue_with(1);
    let running = q.extract_front().unwrap();
    q.begin_step(0, 1u8);
    let result: StepResult<u32, &'static str> = StepResult::RunningError("whatever");
    let outcome = result.outcome(100);
    q.end_step(0, outcome.pause, outcome.progress, result.into_error());
    assert!(q.paused);
    assert_eq!(q.actions[0].errors, vec!["whatever"]);
    let prev = Some(running);
    assert_eq!(q.next_step(&prev), NextStep::ReleasePrev);
    assert!(q.release_prev_action(prev.unwrap()).is_none());
    assert_eq!(q.actions.len(), 1);
    assert_eq!(q.actions[0].get_progress(), None);
    assert_eq!(q.actions[0].errors, vec!["whatever"]);
    assert!(q.actions[0].action.is_some());
}

#[test]
fn step_errors_of_each_kind() {
    let r: StepResult<u32, &'static str> = StepResult::FinishedError("gone");
    assert_eq!(r.into_error(), Some("gone"));
    let r: StepResult<u32, &'static str> = StepResult::Running(Some(1));
    assert_eq!(r.into_error(), None);
    let r: StepResult<u32, &'static str> = StepResult::Finished;
    assert_eq!(r.into_error(), None);
}

#[test]
fn acquire_step_release_order() {
    // the runner holds nothing: it starts (and acquires) the front action
    let mut q = queue_with(2);
    assert_eq!(q.next_step(&None), NextStep::StartFront);
    let running = q.extract_front().unwrap();
    // the only placeholder stands for the action it holds
    assert_eq!(q.actions.iter().filter(|a| a.is_placeholder()).count(), 1);
    assert_eq!(q.actions[0].get_id(), running.get_id());
    let mut prev = Some(running);
    // it keeps stepping the action it holds
    assert_eq!(q.next_step(&prev), NextStep::ContinuePrev);
    // the action finishes: it is released, then the runner must put it back first
    prev.as_mut().unwrap().finish();
    assert_eq!(q.next_step(&prev), NextStep::ReleasePrev);
    assert!(q.release_prev_action(prev.take().unwrap()).is_some());
    assert!(q.actions.iter().all(|a| !a.is_placeholder()));
    assert_eq!(q.next_step(&None), NextStep::StartFront);
    q.stop();
    assert_eq!(q.next_step(&None), NextStep::Stop);
}

#[test]
fn dir_names_are_written_in_decimal() {
    assert_eq!(dir_name_string(0, "emergency"), "0_emergency");
    assert_eq!(dir_name_string(907, "command_list"), "907_command_list");
    assert_eq!(dir_name_string(u32::MAX, "x"), "4294967295_x");
}

#[test]
fn new_actions_start_without_errors() {
    let mut q = queue_with(1);
    assert!(q.actions[0].errors.is_empty());
    let e = q.start_emergency("e", EmergencyAction::get_type_name());
    assert!(e.errors.is_empty());
}

#[test]
fn saved_directory_reads_back() {
    let w: ActionWrapper<u8, u8, u8> = ActionWrapper::new(1, 12, "/data/queue", "command_list");
    let (ctx, kind) = Context::from_save_dir(w.get_save_dir().clone()).unwrap();
    assert_eq!(kind, ActionKind::CommandList);
    assert_eq!(ctx.get_id(), 12);
    assert_eq!(ctx.get_type_name(), "command_list");
    assert_eq!(ctx.get_save_dir(), w.get_save_dir());
    assert_eq!(Context::from_save_dir("/".to_string()).err(), Some(LoadError::NoFileName));
    assert_eq!(Context::from_save_dir("/q/abc".to_string()).err(), Some(LoadError::InvalidId));
    assert_eq!(Context::from_save_dir("/q/12".to_string()).err(), Some(LoadError::InvalidFilename));
    assert_eq!(Context::from_save_dir("/q/3_other".to_string()).err(), Some(LoadError::InvalidTypeName));
}
