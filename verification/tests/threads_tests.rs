use apue::foo_table;
use apue::foo_table_simple;
use apue::jobqueue::{Job, Queue};
use apue::messages::{Messages, Msg};
use apue::refcount::{foo_alloc, foo_hold, foo_rele, Foo};

#[test]
fn refcount_alloc_hands_out_new_object() {
    assert_eq!(foo_alloc(3), Some(Foo { f_count: 1, f_id: 3 }));
}

#[test]
fn refcount_hold_then_rele() {
    let mut f = Foo { f_count: 1, f_id: 9 };
    foo_hold(&mut f);
    assert_eq!(f.f_count, 2);
    assert!(!foo_rele(&mut f));
    assert_eq!(f, Foo { f_count: 1, f_id: 9 });
    assert!(foo_rele(&mut f));
    assert_eq!(f.f_count, 0);
}

#[test]
fn two_mutex_table_alloc_and_find() {
    let mut t = foo_table::Hashmap::new();
    assert_eq!(t.bucket_count(), 29);
    {
        let f = t.foo_alloc(30).unwrap();
        assert_eq!(*f, Foo { f_count: 1, f_id: 30 });
    }
    {
        // same bucket: the new object is handed out
        let g = t.foo_alloc(1).unwrap();
        assert_eq!(*g, Foo { f_count: 1, f_id: 1 });
    }
    {
        let found = t.foo_find(1).unwrap();
        assert_eq!(*found, Foo { f_count: 2, f_id: 1 });
    }
    assert!(t.foo_find(59).is_none());
    assert!(t.foo_find(2).is_none());
    {
        let neg = t.foo_alloc(-29).unwrap();
        assert_eq!(neg.f_id, -29);
    }
    assert_eq!(t.foo_find(-29).unwrap().f_count, 2);
}

#[test]
fn two_mutex_table_release() {
    let mut t = foo_table::Hashmap::new();
    t.foo_alloc(3);
    t.foo_alloc(4);
    let mut outside = Foo { f_count: 3, f_id: 3 };
    t.foo_rele(&mut outside);
    assert_eq!(outside.f_count, 2);
    let mut negative = Foo { f_count: 2, f_id: -5 };
    t.foo_rele(&mut negative);
    assert_eq!(negative.f_count, 1);
    let mut last = Foo { f_count: 1, f_id: 3 };
    t.foo_rele(&mut last);
    assert_eq!(t.bucket_count(), 29);
    assert!(t.foo_find(3).is_none());
    assert_eq!(t.foo_find(4).unwrap().f_count, 2);
}

#[test]
fn simple_table_release_and_hold() {
    let mut t = foo_table_simple::Hashmap::new();
    {
        let f = t.foo_alloc(5).unwrap();
        assert_eq!(f.f_count, 1);
    }
    {
        let found = t.foo_find(5).unwrap();
        assert_eq!(found.f_count, 2);
    }
    let mut outside = Foo { f_count: 5, f_id: 5 };
    t.foo_hold(&mut outside);
    assert_eq!(outside.f_count, 6);
    t.foo_rele(&mut outside);
    assert_eq!(outside.f_count, 5);
    assert!(t.foo_find(5).is_some());
    let mut last = Foo { f_count: 1, f_id: 5 };
    t.foo_rele(&mut last);
    assert_eq!(last.f_count, 0);
    assert_eq!(t.bucket_count(), 29);
    assert!(t.foo_find(5).is_none());
}

#[test]
fn queue_append_then_find() {
    let mut q = Queue::new();
    q.job_append(Job { thread_id: 1 });
    assert_eq!(q.job_find(1).expect("expected to find 1").thread_id, 1);
}

#[test]
fn queue_insert_puts_in_front() {
    let mut q = Queue::new();
    q.job_append(Job { thread_id: 1 });
    q.job_insert(Job { thread_id: 2 });
    q.job_append(Job { thread_id: 2 });
    assert_eq!(q.len(), 3);
    assert_eq!(q.job_find(2).unwrap().thread_id, 2);
    assert!(q.job_find(3).is_none());
}

#[test]
fn queue_remove_by_position() {
    let mut q = Queue::new();
    for id in [1u64, 2, 3, 4] {
        q.job_append(Job { thread_id: id });
    }
    q.job_remove(0);
    assert!(q.job_find(1).is_none());
    q.job_remove(2);
    assert!(q.job_find(4).is_none());
    q.job_append(Job { thread_id: 5 });
    q.job_remove(1);
    assert_eq!(q.len(), 2);
    assert!(q.job_find(3).is_none());
    assert!(q.job_find(2).is_some());
    assert!(q.job_find(5).is_some());
}

#[test]
fn messages_front_in_front_out() {
    let mut m = Messages::new();
    assert!(m.process_msg().is_none());
    m.enqueue_msg(Msg {});
    m.enqueue_msg(Msg {});
    assert_eq!(m.len(), 2);
    assert_eq!(m.process_msg(), Some(Msg {}));
    assert_eq!(m.len(), 1);
    assert_eq!(m.process_msg(), Some(Msg {}));
    assert!(m.process_msg().is_none());
}
