use uniffi_bindgen::handle::Handle;
use uniffi_bindgen::handle::HandleAction;
use uniffi_bindgen::handle::HandleEvent;

fn run(handle: &mut Handle, events: &[HandleEvent]) -> Vec<HandleAction> {
    events.iter().map(|e| handle.step(*e)).collect()
}

fn releases(actions: &[HandleAction]) -> usize {
    actions.iter().filter(|a| **a == HandleAction::Release).count()
}

#[test]
fn a_fresh_handle_is_in_use() {
    let h = Handle::new();
    assert_eq!(h, Handle { calls: 0, disposed: false });
}

#[test]
fn disposing_of_an_idle_handle_releases_the_object() {
    let mut h = Handle::new();
    assert_eq!(h.step(HandleEvent::Dispose), HandleAction::Release);
    assert!(h.disposed);
}

#[test]
fn a_second_dispose_and_a_later_call_fail() {
    let mut h = Handle::new();
    assert_eq!(h.step(HandleEvent::Dispose), HandleAction::Release);
    assert_eq!(h.step(HandleEvent::Dispose), HandleAction::FailDisposed);
    assert_eq!(h.step(HandleEvent::BeginCall), HandleAction::FailDisposed);
    assert_eq!(h.step(HandleEvent::EndCall), HandleAction::FailNoCall);
    assert_eq!(h, Handle { calls: 0, disposed: true });
}

#[test]
fn the_object_outlives_the_calls_that_are_under_way() {
    let mut h = Handle::new();
    let actions = run(
        &mut h,
        &[
            HandleEvent::BeginCall,
            HandleEvent::BeginCall,
            HandleEvent::Dispose,
            HandleEvent::BeginCall,
            HandleEvent::EndCall,
            HandleEvent::Dispose,
            HandleEvent::EndCall,
            HandleEvent::EndCall,
            HandleEvent::BeginCall,
        ],
    );
    assert_eq!(
        actions,
        vec![
            HandleAction::Proceed,
            HandleAction::Proceed,
            HandleAction::Proceed,
            HandleAction::FailDisposed,
            HandleAction::Proceed,
            HandleAction::FailDisposed,
            HandleAction::Release,
            HandleAction::FailNoCall,
            HandleAction::FailDisposed,
        ]
    );
    assert_eq!(releases(&actions), 1);
}

#[test]
fn calls_on_a_handle_in_use_go_through() {
    let mut h = Handle::new();
    let actions = run(&mut h, &[HandleEvent::BeginCall, HandleEvent::EndCall, HandleEvent::EndCall]);
    assert_eq!(
        actions,
        vec![HandleAction::Proceed, HandleAction::Proceed, HandleAction::FailNoCall]
    );
    assert_eq!(h, Handle { calls: 0, disposed: false });
}

#[test]
fn calls_that_cannot_be_counted_are_refused() {
    let mut h = Handle { calls: u64::MAX, disposed: false };
    assert_eq!(h.step(HandleEvent::BeginCall), HandleAction::FailTooManyCalls);
    assert_eq!(h.calls, u64::MAX);
    assert_eq!(h.step(HandleEvent::EndCall), HandleAction::Proceed);
    assert_eq!(h.step(HandleEvent::BeginCall), HandleAction::Proceed);
}

#[test]
fn no_order_of_steps_releases_the_object_twice() {
    let events = [HandleEvent::Dispose, HandleEvent::BeginCall, HandleEvent::EndCall];
    let mut trace = vec![0usize; 7];
    loop {
        let mut h = Handle::new();
        let steps: Vec<HandleEvent> = trace.iter().map(|i| events[*i]).collect();
        let actions = run(&mut h, &steps);
        let expected = if h.disposed && h.calls == 0 { 1 } else { 0 };
        assert_eq!(releases(&actions), expected);
        let mut k = 0;
        while k < trace.len() && trace[k] == 2 {
            trace[k] = 0;
            k += 1;
        }
        if k == trace.len() {
            break;
        }
        trace[k] += 1;
    }
}
