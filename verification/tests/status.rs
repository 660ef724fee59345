use ichika::status::{retry, retry_with, IntoStatus, RetryPolicy, Status};

#[test]
fn default_retry_policy() {
    let p = RetryPolicy::default();
    assert_eq!(p.max_attempts, 3);
    assert_eq!(p.delay_ms, 100);
}

#[test]
fn retry_helpers() {
    assert!(matches!(retry::<u8, ()>(), Status::Retry));
    let p = RetryPolicy { max_attempts: 1, delay_ms: 5 };
    match retry_with(p, 2, "again") {
        Status::RetryWith(q, attempt, v) => {
            assert_eq!(q.max_attempts, 1);
            assert_eq!(q.delay_ms, 5);
            assert_eq!(attempt, 2);
            assert_eq!(v, "again");
        }
        _ => panic!("expected RetryWith"),
    }
}

#[test]
fn results_become_statuses() {
    let ok: Result<u8, String> = Ok(7);
    assert!(matches!(ok.into_status(), Status::Next(7)));
    let err: Result<u8, String> = Err("bad".to_string());
    match err.into_status() {
        Status::Panic(e) => assert_eq!(e, "bad"),
        _ => panic!("expected Panic"),
    }
}

#[test]
fn statuses_stay_as_they_are() {
    let s: Status<u8, ()> = Status::Switch(("next", 3));
    match s.into_status() {
        Status::Switch((t, v)) => {
            assert_eq!(t, "next");
            assert_eq!(v, 3);
        }
        _ => panic!("expected Switch"),
    }
    assert!(matches!(Status::<u8, ()>::Exit.into_status(), Status::Exit));
}

#[test]
fn cloning_keeps_the_status() {
    let s: Status<String, u8> = Status::Back(("a", "x".to_string()));
    match s.clone() {
        Status::Back((t, v)) => {
            assert_eq!(t, "a");
            assert_eq!(v, "x");
        }
        _ => panic!("expected Back"),
    }
    let r: Status<String, u8> = Status::RetryWith(RetryPolicy::default(), 1, "y".to_string());
    assert!(matches!(r.clone(), Status::RetryWith(_, 1, _)));
}
