use dptree::{endpoint, entry, filter, from_fn, inspect, DependencyMap, DiFn, Endpoint, ResolutionFailure};
use std::ops::ControlFlow;
use std::sync::atomic::{AtomicUsize, Ordering};
use std::sync::Arc;

const NUM: u64 = 0;
const OTHER: u64 = 1;

fn deps(num: i32) -> DependencyMap<i32> {
    let mut store = DependencyMap::new();
    store.insert(NUM, num);
    store
}

fn num_is(pred: fn(i32) -> bool) -> DiFn<i32, bool, impl Fn(Vec<Arc<i32>>) -> bool + Send + Sync + 'static> {
    DiFn::new(vec![NUM], move |args: Vec<Arc<i32>>| pred(*args[0]))
}

fn always<O: Clone + Send + Sync + 'static>(
    output: O,
) -> DiFn<i32, O, impl Fn(Vec<Arc<i32>>) -> O + Send + Sync + 'static> {
    DiFn::new(vec![], move |_args: Vec<Arc<i32>>| output.clone())
}

#[test]
fn test_endpoint() {
    let input = 123;
    let output = 7;

    let mut store = DependencyMap::new();
    store.insert(NUM, input);

    let result = endpoint(DiFn::new(vec![NUM], move |args: Vec<Arc<i32>>| {
        assert_eq!(*args[0], input);
        output
    }))
    .dispatch(store);

    let result = match result {
        ControlFlow::Break(b) => b,
        _ => panic!("Unexpected: handler return ControlFlow::Break"),
    };
    assert_eq!(result, Ok(output));
}

#[test]
fn endpoint_doubles_injected_integer() {
    let mut store = DependencyMap::new();
    store.insert(NUM, 42);
    let double = endpoint(DiFn::new(vec![NUM], |args: Vec<Arc<i32>>| *args[0] * 2));
    assert_eq!(double.dispatch(store), ControlFlow::Break(Ok(84)));
}

#[test]
fn endpoint_without_insertion_is_resolution_failure() {
    let store: DependencyMap<i32> = DependencyMap::new();
    let double = endpoint(DiFn::new(vec![NUM], |args: Vec<Arc<i32>>| *args[0] * 2));
    let result = double.dispatch(store);
    assert_eq!(result, ControlFlow::Break(Err(ResolutionFailure { missing: NUM })));
    assert!(!matches!(result, ControlFlow::Continue(_)));
}

#[test]
fn endpoint_never_declines() {
    let calls = Arc::new(AtomicUsize::new(0));
    let seen = calls.clone();
    let handler: Endpoint<i32, i32> = endpoint(DiFn::new(vec![NUM], |args: Vec<Arc<i32>>| *args[0]));
    for n in [-3, 0, 1, 99] {
        let result = handler.clone().execute(deps(n), {
            let seen = seen.clone();
            move |leftover| {
                seen.fetch_add(1, Ordering::SeqCst);
                ControlFlow::Continue(leftover)
            }
        });
        assert_eq!(result, ControlFlow::Break(Ok(n)));
    }
    assert_eq!(calls.load(Ordering::SeqCst), 0);
}

#[test]
fn endpoint_with_no_dependencies_runs_on_empty_container() {
    let handler = endpoint(always("done"));
    assert_eq!(handler.dispatch(DependencyMap::new()), ControlFlow::Break(Ok("done")));
}

#[test]
fn endpoint_body_is_not_called_when_a_dependency_is_missing() {
    let calls = Arc::new(AtomicUsize::new(0));
    let seen = calls.clone();
    let handler = endpoint(DiFn::new(vec![NUM, OTHER], move |args: Vec<Arc<i32>>| {
        seen.fetch_add(1, Ordering::SeqCst);
        *args[0] + *args[1]
    }));
    assert_eq!(
        handler.dispatch(deps(1)),
        ControlFlow::Break(Err(ResolutionFailure { missing: OTHER }))
    );
    assert_eq!(calls.load(Ordering::SeqCst), 0);

    let mut both = deps(1);
    both.insert(OTHER, 2);
    assert_eq!(handler.dispatch(both), ControlFlow::Break(Ok(3)));
    assert_eq!(calls.load(Ordering::SeqCst), 1);
}

#[test]
fn endpoint_receives_shared_handles() {
    let store = deps(5);
    let stored = store.get(NUM).unwrap();
    let probe = stored.clone();
    let handler = endpoint(DiFn::new(vec![NUM], move |args: Vec<Arc<i32>>| Arc::ptr_eq(&args[0], &probe)));
    assert_eq!(handler.dispatch(store), ControlFlow::Break(Ok(true)));
}

#[test]
fn difn_call_resolves_and_runs() {
    let sum = DiFn::new(vec![NUM, OTHER, NUM], |args: Vec<Arc<i32>>| {
        assert_eq!(args.len(), 3);
        *args[0] * 100 + *args[1] * 10 + *args[2]
    });
    let mut store = deps(1);
    assert_eq!(sum.call(&store), Err(ResolutionFailure { missing: OTHER }));
    store.insert(OTHER, 2);
    assert_eq!(sum.call(&store), Ok(121));
}

#[test]
fn missing_dependency_fails_through_the_whole_tree() {
    let needy = endpoint(DiFn::new(vec![OTHER], |args: Vec<Arc<i32>>| *args[0]));
    let tree = entry()
        .branch(filter(num_is(|n| n < 0)).endpoint(always(-1)))
        .branch(entry().chain(needy))
        .branch(endpoint(always(0)));
    assert_eq!(tree.dispatch(deps(-5)), ControlFlow::Break(Ok(-1)));
    assert_eq!(
        tree.dispatch(deps(5)),
        ControlFlow::Break(Err(ResolutionFailure { missing: OTHER }))
    );
    // The same dispatch fails the same way each time.
    assert_eq!(
        tree.dispatch(deps(5)),
        ControlFlow::Break(Err(ResolutionFailure { missing: OTHER }))
    );
}

#[test]
fn handler_endpoint_method_chains_an_endpoint() {
    let handler = filter(num_is(|n| n > 0)).endpoint(always("done"));
    assert_eq!(handler.dispatch(deps(10)), ControlFlow::Break(Ok("done")));
    assert_eq!(handler.dispatch(deps(-10)), ControlFlow::Continue(deps(-10)));
}

#[test]
fn filter_passes_or_declines() {
    let gate: Endpoint<i32, &'static str> = filter(num_is(|n| n == 5));
    assert_eq!(
        gate.clone().execute(deps(5), |_| ControlFlow::Break(Ok("passed"))),
        ControlFlow::Break(Ok("passed"))
    );
    assert_eq!(
        gate.clone().execute(deps(6), |_| ControlFlow::Break(Ok("passed"))),
        ControlFlow::Continue(deps(6))
    );
    assert_eq!(gate.dispatch(deps(5)), ControlFlow::Continue(deps(5)));
}

#[test]
fn filter_with_missing_dependency_fails() {
    let gate: Endpoint<i32, &'static str> = filter(num_is(|n| n == 5));
    assert_eq!(
        gate.dispatch(DependencyMap::new()),
        ControlFlow::Break(Err(ResolutionFailure { missing: NUM }))
    );
}

#[test]
fn inspect_runs_and_passes_the_container_on() {
    let sum = Arc::new(AtomicUsize::new(0));
    let seen = sum.clone();
    let look: Endpoint<i32, &'static str> = inspect(DiFn::new(vec![NUM], move |args: Vec<Arc<i32>>| {
        seen.fetch_add(*args[0] as usize, Ordering::SeqCst);
    }));
    assert_eq!(look.dispatch(deps(4)), ControlFlow::Continue(deps(4)));
    let tree = look.endpoint(always("end"));
    assert_eq!(tree.dispatch(deps(6)), ControlFlow::Break(Ok("end")));
    assert_eq!(sum.load(Ordering::SeqCst), 10);
}

#[test]
fn inspect_with_missing_dependency_fails() {
    let look: Endpoint<i32, &'static str> = inspect(DiFn::new(vec![OTHER], |_args: Vec<Arc<i32>>| ()));
    assert_eq!(
        look.dispatch(deps(4)),
        ControlFlow::Break(Err(ResolutionFailure { missing: OTHER }))
    );
}

#[test]
fn from_fn_handler_can_restore_the_container() {
    // A handler that extends the container for what follows and gives the
    // container it was given back when what follows declines.
    let extend = from_fn(|container: DependencyMap<i32>, cont: dptree::Cont<DependencyMap<i32>, Result<i32, ResolutionFailure>>| {
        let mut extended = container.clone();
        extended.insert(OTHER, 100);
        match cont.call(extended) {
            ControlFlow::Continue(_) => ControlFlow::Continue(container),
            done => done,
        }
    });
    let sum = DiFn::new(vec![NUM, OTHER], |args: Vec<Arc<i32>>| *args[0] + *args[1]);
    assert_eq!(extend.clone().endpoint(sum).dispatch(deps(1)), ControlFlow::Break(Ok(101)));
    let gated = extend.chain(filter(num_is(|n| n > 10)));
    assert_eq!(gated.dispatch(deps(1)), ControlFlow::Continue(deps(1)));
}
