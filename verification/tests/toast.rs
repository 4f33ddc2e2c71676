use tezzera::widgets::toast::{ToastQueue, TOAST_CAPACITY};

/// A toast with a lifetime in seconds, as the windowing layer keeps it.
#[derive(Debug, Clone)]
struct Toast {
    message: String,
    lifetime: f32,
    elapsed: f32,
}

impl Toast {
    fn new(message: impl Into<String>) -> Self {
        Toast { message: message.into(), lifetime: 3.0, elapsed: 0.0 }
    }

    fn lifetime(mut self, secs: f32) -> Self {
        self.lifetime = secs;
        self
    }

    fn is_expired(&self) -> bool {
        self.elapsed >= self.lifetime
    }
}

/// Advances every toast by `dt` and drops the expired ones.
fn tick(q: &mut ToastQueue<Toast>, dt: f32) -> usize {
    let mut toasts = q.take_all();
    for t in &mut toasts {
        t.elapsed += dt;
    }
    let expired: Vec<bool> = toasts.iter().map(Toast::is_expired).collect();
    for t in toasts {
        q.push(t);
    }
    q.remove_expired(&expired)
}

#[test]
fn toast_queue_new_empty() {
    let q: ToastQueue<Toast> = ToastQueue::new();
    assert!(q.is_empty());
    assert_eq!(q.len(), 0);
}

#[test]
fn toast_queue_push() {
    let mut q = ToastQueue::new();
    q.push(Toast::new("a"));
    q.push(Toast::new("b"));
    assert_eq!(q.len(), 2);
}

#[test]
fn toast_queue_tick_removes_expired() {
    let mut q = ToastQueue::new();
    q.push(Toast::new("short").lifetime(0.5));
    q.push(Toast::new("long").lifetime(5.0));
    let removed = tick(&mut q, 1.0);
    assert_eq!(removed, 1);
    assert_eq!(q.len(), 1);
    assert_eq!(q.active()[0].message, "long");
}

#[test]
fn toast_queue_max_capacity_evicts_oldest() {
    let mut q = ToastQueue::new();
    for i in 0..6 {
        q.push(Toast::new(format!("msg{i}")));
    }
    // max=5; 6th push evicts the first
    assert_eq!(q.len(), 5);
    assert_eq!(q.active()[0].message, "msg1");
}

#[test]
fn toast_queue_len() {
    let mut q = ToastQueue::new();
    q.push(Toast::new("a"));
    assert_eq!(q.len(), 1);
}

#[test]
fn toast_queue_clear() {
    let mut q = ToastQueue::new();
    q.push(Toast::new("a"));
    q.push(Toast::new("b"));
    q.clear();
    assert!(q.is_empty());
}

#[test]
fn toast_queue_active_returns_slice() {
    let mut q = ToastQueue::new();
    q.push(Toast::new("x"));
    let slice = q.active();
    assert_eq!(slice.len(), 1);
    assert_eq!(slice[0].message, "x");
}

#[test]
fn toast_queue_keeps_order_and_capacity() {
    let mut q: ToastQueue<u32> = ToastQueue::default();
    for i in 0..12 {
        q.push(i);
        assert!(q.len() <= TOAST_CAPACITY);
        assert_eq!(*q.active().last().unwrap(), i);
    }
    assert_eq!(q.active(), &[7, 8, 9, 10, 11]);
}

#[test]
fn toast_queue_remove_expired_by_flags() {
    let mut q: ToastQueue<u32> = ToastQueue::new();
    for i in 1..=4 {
        q.push(i);
    }
    assert_eq!(q.remove_expired(&[true, false, true, false]), 2);
    assert_eq!(q.active(), &[2, 4]);
    assert_eq!(q.remove_expired(&[false, false]), 0);
    assert_eq!(q.active(), &[2, 4]);
    let all = q.take_all();
    assert_eq!(all, vec![2, 4]);
    assert!(q.is_empty());
}
