use axnet::task::{Scheduler, TaskStep};

#[test]
fn test_sched_fifo() {
    const NUM_TASKS: usize = 10;

    let mut scheduler = Scheduler::new();
    let mut ids = Vec::new();
    for i in 0..NUM_TASKS {
        let id = scheduler.spawn_raw(vec![TaskStep::Yield], format!("T{i}"), 0x1000, 0);
        println!("sched-fifo: Hello, task {}! ({})", i, scheduler.task_name(id));
        ids.push(id);
    }

    scheduler.run(10_000);
    assert!(scheduler.idle());

    for (i, id) in ids.iter().enumerate() {
        let order = scheduler.finish_position(*id).unwrap();
        assert_eq!(order, i); // FIFO scheduler
    }
}

#[test]
fn test_fp_state_switch() {
    const NUM_TASKS: usize = 5;
    const FLOATS: [f64; NUM_TASKS] = [
        core::f64::consts::PI,
        core::f64::consts::E,
        -core::f64::consts::SQRT_2,
        0.0,
        0.618033988749895,
    ];

    let mut scheduler = Scheduler::new();
    let finished = scheduler.new_counter();
    let mut values = [0.0f64; NUM_TASKS];

    for (i, float) in FLOATS.iter().enumerate() {
        values[i] = float + i as f64;
        scheduler.spawn(vec![TaskStep::Yield, TaskStep::CounterAdd(finished)], 0);
    }

    scheduler.run(10_000);

    for (i, float) in FLOATS.iter().enumerate() {
        let value = values[i] - i as f64;
        println!("fp_state_switch: Float {i} = {value}");
        assert!((value - float).abs() < 1e-9);
    }
    assert_eq!(scheduler.counter_value(finished) as usize, NUM_TASKS);
}

#[test]
fn test_wait_queue() {
    const NUM_TASKS: usize = 10;

    let mut scheduler = Scheduler::new();
    let wq1 = scheduler.new_wait_queue();
    let wq2 = scheduler.new_wait_queue();
    let counter = scheduler.new_counter();

    let mut ids = Vec::new();
    for _ in 0..NUM_TASKS {
        let id = scheduler.spawn(
            vec![
                TaskStep::CounterAdd(counter),
                TaskStep::NotifyOne(wq1), // WQ1.wait_until()
                TaskStep::Wait(wq2),
                TaskStep::CounterSub(counter),
                TaskStep::NotifyOne(wq1), // WQ1.wait_until()
            ],
            0,
        );
        ids.push(id);
    }

    println!("task {:?} is waiting for tasks to start...", "main");
    while (scheduler.counter_value(counter) as usize) < NUM_TASKS {
        assert!(scheduler.step());
    }
    for id in ids.iter() {
        println!("wait_queue: task {:?} started", id);
    }
    assert_eq!(scheduler.counter_value(counter) as usize, NUM_TASKS);
    // every worker now sits on the second queue
    for id in ids.iter() {
        assert!(scheduler.in_wait_queue(*id));
    }

    scheduler.notify_all(wq2); // WQ2.wait()

    println!("task {:?} is waiting for tasks to finish...", "main");
    while scheduler.counter_value(counter) > 0 {
        assert!(scheduler.step());
    }
    for id in ids.iter() {
        println!("wait_queue: task {:?} finished", id);
    }
    assert_eq!(scheduler.counter_value(counter), 0);
    // a woken task has left the wait queue for good
    for id in ids.iter() {
        assert!(!scheduler.in_wait_queue(*id));
        assert_eq!(scheduler.join(*id), Some(0));
    }
}

#[test]
fn test_task_join() {
    const NUM_TASKS: usize = 10;

    let mut scheduler = Scheduler::new();
    let mut tasks = Vec::with_capacity(NUM_TASKS);
    for i in 0..NUM_TASKS {
        let id = scheduler.spawn_raw(vec![TaskStep::Yield], format!("T{i}"), 0x1000, i as i32);
        println!("task_join: task {}! ({})", i, scheduler.task_name(id));
        tasks.push(id);
    }

    scheduler.run(10_000);

    for (i, task) in tasks.into_iter().enumerate() {
        assert_eq!(scheduler.join(task).unwrap(), i as i32);
    }
}
