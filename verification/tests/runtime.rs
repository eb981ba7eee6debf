use ironspdk::tcb::{PollRound, TaskState};
use ironspdk::{
    thread_id, CpuSet, IoFuture, Poll, SpdkThread, Task, Tcb, TcbCache, TcbPtr, TcbRegistry,
    ThreadKey, Tls, TlsKey, TlsSlots, TLS_SLOTS,
};

fn round(tcb: &mut Tcb<usize, String>) -> PollRound {
    match tcb.poll(true) {
        Ok(round) => round,
        Err(_) => panic!("the thread is running"),
    }
}

#[test]
fn a_future_is_ready_once_it_is_complete() {
    let mut fut: IoFuture<u32> = IoFuture::default();
    assert_eq!(fut.poll(1), Poll::Pending);
    assert_eq!(fut.poll(2), Poll::Pending);
    assert_eq!(fut.complete(), Some(2));
    assert_eq!(fut.complete(), None);
    assert_eq!(fut.poll(3), Poll::Ready);
    assert_eq!(fut.poll(4), Poll::Ready);
}

#[test]
fn a_future_may_complete_before_anyone_waits() {
    let mut fut: IoFuture<u32> = IoFuture::new();
    assert_eq!(fut.complete(), None);
    assert_eq!(fut.poll(1), Poll::Ready);
}

#[test]
fn tasks_are_polled_in_the_order_of_their_spawning() {
    let mut tcb: Tcb<usize, String> = Tcb::new(0x80);
    tcb.spawn(3);
    tcb.spawn(1);
    tcb.spawn(2);
    let mut round = round(&mut tcb);
    assert_eq!(round.status(), 0);
    assert_eq!(round.next(&mut tcb), Some(3));
    assert_eq!(round.next(&mut tcb), Some(1));
    tcb.spawn(4);
    assert_eq!(round.next(&mut tcb), Some(2));
    assert_eq!(round.next(&mut tcb), Some(4));
    assert_eq!(round.next(&mut tcb), None);
    assert_eq!(round.status(), 1);
}

#[test]
fn a_round_polls_tasks_that_are_woken_meanwhile() {
    let mut tcb: Tcb<usize, String> = Tcb::new(0x80);
    let mut task = Task::new();
    tcb.spawn(5);
    let mut round = round(&mut tcb);
    assert_eq!(round.next(&mut tcb), Some(5));
    assert!(task.begin_poll());
    assert!(task.wake(&mut tcb, 5, true).is_none());
    task.end_poll(false, &mut tcb, 5);
    assert_eq!(round.next(&mut tcb), Some(5));
    assert!(task.begin_poll());
    task.end_poll(true, &mut tcb, 5);
    assert_eq!(round.next(&mut tcb), None);
    assert_eq!(round.status(), 1);
}

#[test]
fn a_round_without_tasks_is_idle() {
    let mut tcb: Tcb<usize, String> = Tcb::new(0x80);
    let mut round = round(&mut tcb);
    assert_eq!(round.next(&mut tcb), None);
    assert_eq!(round.status(), 0);
}

#[test]
fn an_idle_task_is_queued_when_it_is_woken() {
    let mut tcb: Tcb<usize, String> = Tcb::new(0x80);
    let mut task = Task::new();
    assert!(task.begin_poll());
    task.end_poll(false, &mut tcb, 5);
    let mut first = round(&mut tcb);
    assert_eq!(first.next(&mut tcb), None);
    assert!(task.wake(&mut tcb, 5, true).is_none());
    assert!(task.wake(&mut tcb, 5, true).is_none());
    let mut second = round(&mut tcb);
    assert_eq!(second.next(&mut tcb), Some(5));
    assert_eq!(second.next(&mut tcb), None);
}

#[test]
fn a_task_that_is_woken_while_it_runs_is_queued_afterwards() {
    let mut tcb: Tcb<usize, String> = Tcb::new(0x80);
    let mut task = Task::new();
    assert!(task.begin_poll());
    assert!(task.wake(&mut tcb, 5, true).is_none());
    let mut during = round(&mut tcb);
    assert_eq!(during.next(&mut tcb), None);
    task.end_poll(false, &mut tcb, 5);
    assert_eq!(during.next(&mut tcb), Some(5));
    assert_eq!(during.next(&mut tcb), None);
}

#[test]
fn a_running_task_is_not_polled_again() {
    let mut task = Task::new();
    assert!(task.begin_poll());
    assert!(!task.begin_poll());
    assert_ne!(TaskState::Running, TaskState::Idle);
}

#[test]
fn a_ready_task_is_never_queued_by_a_wake() {
    let mut tcb: Tcb<usize, String> = Tcb::new(0x80);
    let mut task = Task::new();
    assert!(task.begin_poll());
    assert!(task.wake(&mut tcb, 5, true).is_none());
    task.end_poll(true, &mut tcb, 5);
    assert!(task.wake(&mut tcb, 5, true).is_none());
    let mut after = round(&mut tcb);
    assert_eq!(after.next(&mut tcb), None);
}

#[test]
fn an_exiting_thread_hands_out_what_it_leaves() {
    let mut tcb: Tcb<usize, String> = Tcb::new(0x80);
    tcb.spawn(1);
    tcb.spawn(2);
    let key: TlsKey<String> = TlsKey::new(1);
    key.set(tcb.tls_mut(), "kept".to_string());
    let remains = match tcb.poll(false) {
        Err(remains) => remains,
        Ok(_) => panic!("the thread is not running"),
    };
    assert_eq!(remains.poller, 0x80);
    assert_eq!(remains.runq.iter().copied().collect::<Vec<usize>>(), vec![1, 2]);
    assert_eq!(key.get(&remains.tls), Some(&"kept".to_string()));
    assert_eq!(key.get(tcb.tls()), None);
    let mut after = round(&mut tcb);
    assert_eq!(after.next(&mut tcb), None);
}

#[test]
fn waking_a_task_of_an_exiting_thread_shuts_it_down() {
    let mut tcb: Tcb<usize, String> = Tcb::new(0x80);
    tcb.spawn(1);
    let mut task = Task::new();
    let remains = task.wake(&mut tcb, 7, false).unwrap();
    assert_eq!(remains.poller, 0x80);
    assert_eq!(remains.runq.len(), 1);
    assert!(task.begin_poll());
}

#[test]
fn a_thread_gets_one_control_block() {
    let mut reg = TcbRegistry::new();
    let a = ThreadKey::from_thread(0x10);
    let b = ThreadKey::from_thread(0x20);
    assert_eq!(reg.get(a), None);
    assert_eq!(reg.tcb_ptr_from_registry(a, || 0x1000), TcbPtr(0x1000));
    assert_eq!(reg.tcb_ptr_from_registry(a, || panic!("known")).ptr(), 0x1000);
    assert_eq!(reg.tcb_ptr_from_registry(b, || 0x2000), TcbPtr::from_tcb(0x2000));
    assert_eq!(reg.get(a), Some(TcbPtr(0x1000)));
    assert_eq!(reg.remove(a), TcbPtr(0x1000));
    assert_eq!(reg.get(a), None);
    assert_eq!(reg.get(b), Some(TcbPtr(0x2000)));
    assert_eq!(reg.tcb_ptr_from_registry(a, || 0x3000), TcbPtr(0x3000));
}

#[test]
fn the_control_block_is_cached_per_thread_id() {
    let mut cache = TcbCache::new();
    assert_eq!(cache.current(0x10, 1, |key| TcbPtr(key.0 + 1)), TcbPtr(0x11));
    assert_eq!(cache.current(0x10, 1, |_| panic!("cached")), TcbPtr(0x11));
    assert_eq!(cache.current(0x20, 2, |key| TcbPtr(key.0 + 1)), TcbPtr(0x21));
    assert_eq!(cache, TcbCache { thread_id: 2, tcb: TcbPtr(0x21) });
    assert_eq!(cache.current(0x10, 1, |_| TcbPtr(0x55)), TcbPtr(0x55));
}

#[test]
fn a_stored_value_is_there_until_it_is_replaced_or_cleared() {
    let mut tls: Tls<u32> = Tls::default();
    let first: TlsKey<u32> = TlsKey::new(0);
    let last: TlsKey<u32> = TlsKey::new(TLS_SLOTS - 1);
    assert_eq!(first.get(&tls), None);
    first.set(&mut tls, 10);
    last.set(&mut tls, 20);
    assert_eq!(first.get(&tls), Some(&10));
    first.set(&mut tls, 11);
    assert_eq!(first.get(&tls), Some(&11));
    *last.get_mut(&mut tls).unwrap() += 1;
    assert_eq!(last.get(&tls), Some(&21));
    first.clear(&mut tls);
    assert_eq!(first.get(&tls), None);
    assert!(first.get_mut(&mut tls).is_none());
    assert_eq!(last.get(&tls), Some(&21));
    assert_eq!(tls.clear_slot(3), Some(21));
    first.set(&mut tls, 1);
    tls.clear_all();
    assert_eq!(first.get(&tls), None);
}

#[test]
fn slots_are_handed_out_once() {
    let mut slots = TlsSlots::new();
    let mut seen = Vec::new();
    while slots.has_free() {
        let key: TlsKey<u8> = TlsKey::allocate(&mut slots);
        let copy = key;
        assert_eq!(copy.clone().slot(), key.slot());
        seen.push(key.slot());
    }
    assert_eq!(seen, vec![0, 1, 2, 3]);
    assert_eq!(TLS_SLOTS, 4);
}

#[test]
fn an_allocated_key_has_a_free_slot() {
    let mut slots = TlsSlots::new();
    let mut tls: Tls<u32> = Tls::new();
    let first: TlsKey<u32> = TlsKey::new(0);
    first.set_in_use(&mut slots, &mut tls, 1);
    slots.mark(2);
    slots.mark(2);
    let second: TlsKey<u32> = TlsKey::allocate(&mut slots);
    assert_eq!(second.slot(), 1);
    assert_eq!(second.get(&tls), None);
    second.set(&mut tls, 2);
    assert_eq!(first.get(&tls), Some(&1));
    assert!(slots.has_free());
    let third: TlsKey<u32> = TlsKey::allocate(&mut slots);
    assert_eq!(third.slot(), 3);
    assert!(!slots.has_free());
}

#[test]
fn a_cpu_set_holds_each_core_once() {
    let mut set = CpuSet::from_cores(&[3, 1, 3, 2, 1]);
    let mut cores = set.cores().to_vec();
    cores.sort();
    assert_eq!(cores, vec![1, 2, 3]);
    set.set(2);
    set.set(9);
    assert_eq!(set.cores().len(), 4);
    assert!(set.cores().contains(&9));
    set.clear();
    assert!(set.cores().is_empty());
    assert!(CpuSet::default().cores().is_empty());
    assert!(CpuSet::new().cores().is_empty());
}

#[test]
fn threads_are_asked_of_spdk() {
    let thread = SpdkThread::current(|| 0x40);
    assert_eq!(thread.raw(), 0x40);
    assert!(thread.is_current(|| 0x40));
    assert!(!thread.is_current(|| 0x41));
    assert!(!thread.is_current(|| 0));
    assert_eq!(thread.id(|raw| raw as u64 + 2), 0x42);
    assert_eq!(thread_id(|| 0x40, |raw| raw as u64 + 3), 0x43);
    assert_eq!(SpdkThread::from_raw(0x40), thread);
}

#[test]
fn threads_are_created_at_their_cores() {
    let any = SpdkThread::new("worker", |name, set| {
        assert_eq!(name, "worker");
        assert!(set.is_none());
        0x50
    });
    assert_eq!(any.raw(), 0x50);
    let pinned = SpdkThread::new_at_cores("pinned", &[4, 5, 4], |name, set| {
        assert_eq!(name, "pinned");
        let mut cores = set.unwrap().cores().to_vec();
        cores.sort();
        assert_eq!(cores, vec![4, 5]);
        0x60
    });
    assert_eq!(pinned.raw(), 0x60);
    let cpuset = CpuSet::from_cores(&[7]);
    let at = SpdkThread::new_at_cpuset("at", Some(&cpuset), |_, set| {
        assert_eq!(set.unwrap().cores(), &[7]);
        0x70
    });
    assert_eq!(at.raw(), 0x70);
}
