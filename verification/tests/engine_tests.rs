use injector::Ctor;
use injector::CtorCall;
use injector::Graph;
use injector::InjectError;
use injector::Injector;
use injector::Node;
use injector::NodeKind;
use injector::Slot;
use std::sync::Arc;
use std::sync::Mutex;

/// The value domain used by these tests: numbers, a shared counter, and the
/// composite services built from them.
#[derive(Clone)]
enum TestVal {
    Num(usize),
    Counter(Arc<Mutex<usize>>),
    Pair(Arc<Mutex<usize>>, usize),
    Wrap(Arc<Mutex<usize>>, usize),
    Orphan(usize),
}

// Node ids of the shared example graph.
const TEST: usize = 0;
const TEST1: usize = 1;
const TEST2: usize = 2;
const TEST_X: usize = 3;
const ORPHAN_DEP: usize = 4;

/// The example declaration: a constant `10`, a shared counter service
/// starting at `1`, a service pairing the counter with the constant, a
/// service wrapping that pair, and an orphan service built by default
/// construction.
fn example_graph() -> Graph<TestVal> {
    Graph {
        nodes: vec![
            Node {
                kind: NodeKind::Constant,
                singleton: true,
                ctor: Ctor::ConstantExpr(TestVal::Num(10)),
                args: vec![],
            },
            Node {
                kind: NodeKind::Service,
                singleton: true,
                ctor: Ctor::Closure(1),
                args: vec![],
            },
            Node {
                kind: NodeKind::Service,
                singleton: true,
                ctor: Ctor::Closure(2),
                args: vec![TEST1, TEST],
            },
            Node {
                kind: NodeKind::Service,
                singleton: true,
                ctor: Ctor::NamedFactory(3),
                args: vec![TEST1, TEST2],
            },
            Node {
                kind: NodeKind::Service,
                singleton: true,
                ctor: Ctor::DefaultCtor,
                args: vec![],
            },
        ],
    }
}

/// The constructor dispatcher for the example graph.
fn dispatch(c: CtorCall, mut args: Vec<TestVal>) -> Result<TestVal, u64> {
    match c {
        CtorCall::CallClosure(1) => Ok(TestVal::Counter(Arc::new(Mutex::new(1)))),
        CtorCall::CallClosure(2) => {
            let second = args.pop();
            let first = args.pop();
            match (first, second) {
                (Some(TestVal::Counter(t1)), Some(TestVal::Num(k))) => Ok(TestVal::Pair(t1, k)),
                _ => Err(100),
            }
        }
        CtorCall::CallFactory(3) => {
            let second = args.pop();
            let first = args.pop();
            match (first, second) {
                (Some(TestVal::Counter(_)), Some(TestVal::Pair(t1, k))) => {
                    Ok(TestVal::Wrap(t1, k))
                }
                _ => Err(101),
            }
        }
        CtorCall::CallDefault => Ok(TestVal::Orphan(0)),
        _ => Err(99),
    }
}

/// The observable behaviour of the wrapped service: advance the shared
/// counter, then report the stored constant plus the counter's new value.
fn observe(v: &TestVal) -> usize {
    match v {
        TestVal::Wrap(t1, k) => {
            let mut c = t1.lock().unwrap();
            *c += 1;
            *k + *c
        }
        _ => panic!("expected the wrapped service"),
    }
}

fn requires_send_sync<T: Send + Sync>(_t: &T) {}

#[test]
fn test_dependencies() {
    let mut inj = Injector::new(example_graph(), dispatch).unwrap();
    let dep = inj.inject(TEST_X).unwrap();
    assert_eq!(12, observe(&dep));
}

#[test]
fn test_send_sync() {
    let inj = Arc::new(Mutex::new(Injector::new(example_graph(), dispatch).unwrap()));
    requires_send_sync(&inj);
    let other = inj.clone();
    let dep = inj.lock().unwrap().inject(TEST_X).unwrap();
    assert_eq!(12, observe(&dep));
    let dep = other.lock().unwrap().inject(TEST_X).unwrap();
    assert_eq!(13, observe(&dep));
}

#[test]
fn singleton_constructed_once() {
    let built = Arc::new(Mutex::new(0usize));
    let seen = built.clone();
    let f = move |c: CtorCall, _args: Vec<TestVal>| -> Result<TestVal, u64> {
        match c {
            CtorCall::CallClosure(7) => {
                let mut b = seen.lock().unwrap();
                *b += 1;
                Ok(TestVal::Num(*b))
            }
            _ => Err(1),
        }
    };
    let g = Graph {
        nodes: vec![Node {
            kind: NodeKind::Service,
            singleton: true,
            ctor: Ctor::Closure(7),
            args: vec![],
        }],
    };
    let mut inj = Injector::new(g, f).unwrap();
    assert!(matches!(inj.inject(0), Ok(TestVal::Num(1))));
    assert!(matches!(inj.inject(0), Ok(TestVal::Num(1))));
    assert_eq!(1, *built.lock().unwrap());
    assert!(matches!(inj.slots[0], Slot::Cached(_)));
}

#[test]
fn non_singleton_constructed_each_call() {
    let built = Arc::new(Mutex::new(0usize));
    let seen = built.clone();
    let f = move |c: CtorCall, _args: Vec<TestVal>| -> Result<TestVal, u64> {
        match c {
            CtorCall::CallClosure(7) => {
                let mut b = seen.lock().unwrap();
                *b += 1;
                Ok(TestVal::Num(*b))
            }
            _ => Err(1),
        }
    };
    let g = Graph {
        nodes: vec![Node {
            kind: NodeKind::Service,
            singleton: false,
            ctor: Ctor::Closure(7),
            args: vec![],
        }],
    };
    let mut inj = Injector::new(g, f).unwrap();
    assert!(matches!(inj.inject(0), Ok(TestVal::Num(1))));
    assert!(matches!(inj.inject(0), Ok(TestVal::Num(2))));
    assert_eq!(2, *built.lock().unwrap());
    assert!(matches!(inj.slots[0], Slot::Empty));
}

#[test]
fn arguments_arrive_in_declared_order() {
    let f = |c: CtorCall, args: Vec<TestVal>| -> Result<TestVal, u64> {
        match c {
            CtorCall::CallClosure(5) => match (args.first(), args.get(1)) {
                (Some(TestVal::Num(1)), Some(TestVal::Num(2))) => Ok(TestVal::Num(12)),
                _ => Err(50),
            },
            _ => Err(51),
        }
    };
    let g = Graph {
        nodes: vec![
            Node {
                kind: NodeKind::Constant,
                singleton: true,
                ctor: Ctor::ConstantExpr(TestVal::Num(1)),
                args: vec![],
            },
            Node {
                kind: NodeKind::Constant,
                singleton: true,
                ctor: Ctor::ConstantExpr(TestVal::Num(2)),
                args: vec![],
            },
            Node {
                kind: NodeKind::Service,
                singleton: true,
                ctor: Ctor::Closure(5),
                args: vec![0, 1],
            },
        ],
    };
    let mut inj = Injector::new(g, f).unwrap();
    assert!(matches!(inj.inject(2), Ok(TestVal::Num(12))));
}

#[test]
fn direct_cycle_fails() {
    let g = Graph {
        nodes: vec![Node {
            kind: NodeKind::Service,
            singleton: true,
            ctor: Ctor::Closure(1),
            args: vec![0],
        }],
    };
    let mut inj = Injector::new(g, dispatch).unwrap();
    assert_eq!(Err(InjectError::Cycle(0)), inj.inject(0).map(|_| ()));
    // The failed attempt leaves the slot ready for the next call.
    assert!(matches!(inj.slots[0], Slot::Empty));
    assert_eq!(Err(InjectError::Cycle(0)), inj.inject(0).map(|_| ()));
}

#[test]
fn transitive_cycle_fails() {
    let g = Graph {
        nodes: vec![
            Node {
                kind: NodeKind::Service,
                singleton: true,
                ctor: Ctor::Closure(1),
                args: vec![1],
            },
            Node {
                kind: NodeKind::Service,
                singleton: true,
                ctor: Ctor::Closure(2),
                args: vec![2],
            },
            Node {
                kind: NodeKind::Service,
                singleton: true,
                ctor: Ctor::Closure(3),
                args: vec![0],
            },
        ],
    };
    let mut inj = Injector::new(g, dispatch).unwrap();
    assert_eq!(Err(InjectError::Cycle(0)), inj.inject(0).map(|_| ()));
    assert_eq!(Err(InjectError::Cycle(1)), inj.inject(1).map(|_| ()));
}

#[test]
fn constructor_failure_is_reported_and_retryable() {
    let broken = Arc::new(Mutex::new(true));
    let flag = broken.clone();
    let f = move |c: CtorCall, _args: Vec<TestVal>| -> Result<TestVal, u64> {
        match c {
            CtorCall::CallFactory(9) => {
                let mut b = flag.lock().unwrap();
                if *b {
                    *b = false;
                    Err(42)
                } else {
                    Ok(TestVal::Num(7))
                }
            }
            _ => Err(43),
        }
    };
    let g = Graph {
        nodes: vec![Node {
            kind: NodeKind::Service,
            singleton: true,
            ctor: Ctor::NamedFactory(9),
            args: vec![],
        }],
    };
    let mut inj = Injector::new(g, f).unwrap();
    assert_eq!(Err(InjectError::Ctor(42)), inj.inject(0).map(|_| ()));
    assert!(matches!(inj.slots[0], Slot::Empty));
    assert!(matches!(inj.inject(0), Ok(TestVal::Num(7))));
}

#[test]
fn default_construction_always_succeeds() {
    let mut inj = Injector::new(example_graph(), dispatch).unwrap();
    assert!(matches!(inj.inject(ORPHAN_DEP), Ok(TestVal::Orphan(0))));
}

#[test]
fn constant_is_cached_and_stable() {
    let mut inj = Injector::new(example_graph(), dispatch).unwrap();
    assert!(matches!(inj.inject(TEST), Ok(TestVal::Num(10))));
    assert!(matches!(inj.slots[TEST], Slot::Cached(_)));
    assert!(matches!(inj.inject(TEST), Ok(TestVal::Num(10))));
}

#[test]
fn dangling_argument_is_rejected_at_build() {
    let g = Graph {
        nodes: vec![Node {
            kind: NodeKind::Service,
            singleton: true,
            ctor: Ctor::Closure(1),
            args: vec![5],
        }],
    };
    assert!(Injector::<TestVal, _>::new(g, dispatch).is_none());
}

#[test]
fn constant_with_arguments_is_rejected_at_build() {
    let g = Graph {
        nodes: vec![
            Node {
                kind: NodeKind::Constant,
                singleton: true,
                ctor: Ctor::ConstantExpr(TestVal::Num(1)),
                args: vec![0],
            },
        ],
    };
    assert!(Injector::<TestVal, _>::new(g, dispatch).is_none());
}

#[test]
fn service_with_constant_expression_is_rejected_at_build() {
    let g = Graph {
        nodes: vec![Node {
            kind: NodeKind::Service,
            singleton: true,
            ctor: Ctor::ConstantExpr(TestVal::Num(1)),
            args: vec![],
        }],
    };
    assert!(Injector::<TestVal, _>::new(g, dispatch).is_none());
}

#[test]
fn shared_dependency_is_shared_by_identity() {
    // The counter inside the wrapped service is the same object as the one
    // inside the counter service: advancing one is visible through the other.
    let mut inj = Injector::new(example_graph(), dispatch).unwrap();
    let wrapped = inj.inject(TEST_X).unwrap();
    let counter = inj.inject(TEST1).unwrap();
    assert_eq!(12, observe(&wrapped));
    match counter {
        TestVal::Counter(c) => assert_eq!(2, *c.lock().unwrap()),
        _ => panic!("expected the counter service"),
    }
}

#[test]
fn node_count_reports_graph_size() {
    let inj = Injector::new(example_graph(), dispatch).unwrap();
    assert_eq!(5, inj.node_count());
}

struct TestXMark;

impl injector::Dep for TestXMark {
    type DependecyType = TestVal;
}

struct SharedInjector(Arc<Mutex<Injector<TestVal, fn(CtorCall, Vec<TestVal>) -> Result<TestVal, u64>>>>);

impl injector::Inject<TestXMark> for SharedInjector {
    fn inject(&self) -> TestVal {
        self.0.lock().unwrap().inject(TEST_X).unwrap()
    }
}

#[test]
fn static_dispatch_through_inject_trait() {
    let f: fn(CtorCall, Vec<TestVal>) -> Result<TestVal, u64> = dispatch;
    let shared = SharedInjector(Arc::new(Mutex::new(Injector::new(example_graph(), f).unwrap())));
    let dep = <SharedInjector as injector::Inject<TestXMark>>::inject(&shared);
    assert_eq!(12, observe(&dep));
}

#[test]
fn empty_graph_builds_an_empty_injector() {
    let g: Graph<TestVal> = Graph { nodes: vec![] };
    let inj = Injector::new(g, dispatch).unwrap();
    assert_eq!(0, inj.node_count());
}
