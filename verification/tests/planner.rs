use prover_core::planner::{Command, Planner, PlannerError, Task};

fn drain(planner: &mut Planner) -> Vec<Task> {
    let mut tasks = Vec::new();
    while let Some(task) = planner.next_task() {
        tasks.push(task);
    }
    tasks
}

fn plan(segments: u64) -> Vec<Task> {
    let mut planner = Planner::new();
    for i in 0..segments {
        assert_eq!(planner.enqueue_segment(), Ok(i));
    }
    assert_eq!(planner.finish(), Ok(2 * segments - 1));
    drain(&mut planner)
}

fn leaves(tasks: &[Task], number: u64) -> Vec<u64> {
    match tasks[number as usize].command {
        Command::Segment => vec![number],
        Command::Join { left, right } => {
            let mut out = leaves(tasks, left);
            out.extend(leaves(tasks, right));
            out
        }
        Command::Finalize { root } => leaves(tasks, root),
    }
}

#[test]
fn single_segment_plan() {
    let mut planner = Planner::new();
    assert_eq!(planner.enqueue_segment(), Ok(0));
    assert_eq!(planner.next_task(), Some(Task { task_number: 0, command: Command::Segment }));
    assert_eq!(planner.next_task(), None);
    assert_eq!(planner.finish(), Ok(1));
    assert_eq!(
        planner.next_task(),
        Some(Task { task_number: 1, command: Command::Finalize { root: 0 } })
    );
    assert_eq!(planner.next_task(), None);
}

#[test]
fn enqueue_emits_exactly_one_segment_task() {
    let mut planner = Planner::default();
    for i in 0..5u64 {
        assert_eq!(planner.enqueue_segment(), Ok(i));
        assert_eq!(
            drain(&mut planner),
            vec![Task { task_number: i, command: Command::Segment }]
        );
    }
}

#[test]
fn four_segments_reduce_pairwise() {
    assert_eq!(
        plan(4),
        vec![
            Task { task_number: 0, command: Command::Segment },
            Task { task_number: 1, command: Command::Segment },
            Task { task_number: 2, command: Command::Segment },
            Task { task_number: 3, command: Command::Segment },
            Task { task_number: 4, command: Command::Join { left: 0, right: 1 } },
            Task { task_number: 5, command: Command::Join { left: 2, right: 3 } },
            Task { task_number: 6, command: Command::Join { left: 4, right: 5 } },
            Task { task_number: 7, command: Command::Finalize { root: 6 } },
        ]
    );
}

#[test]
fn odd_node_is_carried_to_the_next_level() {
    assert_eq!(
        plan(3),
        vec![
            Task { task_number: 0, command: Command::Segment },
            Task { task_number: 1, command: Command::Segment },
            Task { task_number: 2, command: Command::Segment },
            Task { task_number: 3, command: Command::Join { left: 0, right: 1 } },
            Task { task_number: 4, command: Command::Join { left: 3, right: 2 } },
            Task { task_number: 5, command: Command::Finalize { root: 4 } },
        ]
    );
    let five = plan(5);
    assert_eq!(five[5], Task { task_number: 5, command: Command::Join { left: 0, right: 1 } });
    assert_eq!(five[6], Task { task_number: 6, command: Command::Join { left: 2, right: 3 } });
    assert_eq!(five[7], Task { task_number: 7, command: Command::Join { left: 5, right: 6 } });
    assert_eq!(five[8], Task { task_number: 8, command: Command::Join { left: 7, right: 4 } });
    assert_eq!(five[9], Task { task_number: 9, command: Command::Finalize { root: 8 } });
}

#[test]
fn plans_have_two_tasks_per_segment_and_number_them_in_order() {
    for segments in 1..40u64 {
        let tasks = plan(segments);
        assert_eq!(tasks.len() as u64, 2 * segments);
        for (place, task) in tasks.iter().enumerate() {
            assert_eq!(task.task_number, place as u64);
            match task.command {
                Command::Segment => assert!((place as u64) < segments),
                Command::Join { left, right } => {
                    assert!(left < task.task_number && right < task.task_number);
                    assert!(place as u64 >= segments && (place as u64) < 2 * segments - 1);
                }
                Command::Finalize { root } => {
                    assert_eq!(place as u64, 2 * segments - 1);
                    assert_eq!(root, 2 * segments - 2);
                }
            }
        }
    }
}

#[test]
fn finalize_reaches_every_segment_once() {
    for segments in 1..40u64 {
        let tasks = plan(segments);
        let expected: Vec<u64> = (0..segments).collect();
        assert_eq!(leaves(&tasks, 2 * segments - 1), expected);
    }
}

#[test]
fn every_task_is_joined_at_most_once() {
    let tasks = plan(11);
    let mut used = vec![0u32; tasks.len()];
    for task in &tasks {
        match task.command {
            Command::Segment => {}
            Command::Join { left, right } => {
                used[left as usize] += 1;
                used[right as usize] += 1;
            }
            Command::Finalize { root } => used[root as usize] += 1,
        }
    }
    assert_eq!(used[tasks.len() - 1], 0);
    for count in &used[..tasks.len() - 1] {
        assert_eq!(*count, 1);
    }
}

#[test]
fn finish_without_segments_is_refused() {
    let mut planner = Planner::new();
    assert_eq!(planner.finish(), Err(PlannerError::PlanNotStarted));
    assert_eq!(planner.next_task(), None);
    assert_eq!(planner.enqueue_segment(), Ok(0));
}

#[test]
fn segment_after_finish_is_refused() {
    let mut planner = Planner::new();
    planner.enqueue_segment().unwrap();
    planner.finish().unwrap();
    assert_eq!(planner.enqueue_segment(), Err(PlannerError::PlanFinalized));
}

#[test]
fn finish_twice_changes_nothing() {
    let mut planner = Planner::new();
    planner.enqueue_segment().unwrap();
    planner.enqueue_segment().unwrap();
    assert_eq!(planner.finish(), Ok(3));
    assert_eq!(planner.finish(), Ok(3));
    assert_eq!(drain(&mut planner).len(), 4);
    assert_eq!(planner.finish(), Ok(3));
    assert_eq!(planner.next_task(), None);
}
