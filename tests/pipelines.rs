use enum_pipeline::{Execute, ExecuteWith, ExecuteWithMut};
use std::cell::RefCell;
use std::sync::atomic::{AtomicI32, Ordering};

enum VoidDispatchPipeline {
    One,
    Two,
}

static VOID_ONE_COUNT: AtomicI32 = AtomicI32::new(0);
static VOID_TWO_COUNT: AtomicI32 = AtomicI32::new(0);

impl VoidDispatchPipeline {
    fn handle_one() {
        VOID_ONE_COUNT.fetch_add(1, Ordering::SeqCst);
    }

    fn handle_two() {
        VOID_TWO_COUNT.fetch_add(1, Ordering::SeqCst);
    }
}

// What generation produces for `#[handler(VoidDispatchPipeline::handle_one)]`
// on `One` and `#[handler(handle_two)]` on `Two`.
impl Execute for VoidDispatchPipeline {
    fn execute(self) {
        match self {
            VoidDispatchPipeline::One => VoidDispatchPipeline::handle_one(),
            VoidDispatchPipeline::Two => VoidDispatchPipeline::handle_two(),
        }
    }
}

#[test]
fn void_dispatch_works() {
    let pipeline = vec![VoidDispatchPipeline::One, VoidDispatchPipeline::Two];

    pipeline.execute();

    assert_eq!(1, VOID_ONE_COUNT.load(Ordering::SeqCst));
    assert_eq!(1, VOID_TWO_COUNT.load(Ordering::SeqCst));
}

enum RefDataPipeline {
    One(i32),
    Two,
}

static REF_ONE_VALUE: AtomicI32 = AtomicI32::new(0);
static REF_TWO_COUNT: AtomicI32 = AtomicI32::new(0);

struct RefDataPipelineData {
    mult: i32,
}

impl RefDataPipeline {
    fn handle_one(v: i32, arg: &RefDataPipelineData) {
        REF_ONE_VALUE.fetch_add(v * arg.mult, Ordering::SeqCst);
    }

    fn handle_two(_arg: &RefDataPipelineData) {
        REF_TWO_COUNT.fetch_add(1, Ordering::SeqCst);
    }
}

impl ExecuteWith<RefDataPipelineData> for RefDataPipeline {
    fn execute_with(self, arg: &RefDataPipelineData) {
        match self {
            RefDataPipeline::One(f) => RefDataPipeline::handle_one(f, arg),
            RefDataPipeline::Two => RefDataPipeline::handle_two(arg),
        }
    }
}

#[test]
fn ref_data_pipeline_works() {
    let pipeline = vec![RefDataPipeline::One(24), RefDataPipeline::Two];

    let data = RefDataPipelineData { mult: 2 };

    pipeline.execute_with(&data);

    assert_eq!(48, REF_ONE_VALUE.load(Ordering::SeqCst));
    assert_eq!(1, REF_TWO_COUNT.load(Ordering::SeqCst));
}

enum MutDataPipeline {
    One(i32),
    Two,
}

#[derive(Default)]
struct MutDataPipelineData {
    one_value: i32,
    two_count: i32,
}

impl ExecuteWithMut<MutDataPipelineData> for MutDataPipeline {
    fn execute_with_mut(self, arg: &mut MutDataPipelineData) {
        match self {
            MutDataPipeline::One(i) => arg.one_value += i,
            MutDataPipeline::Two => arg.two_count += 1,
        }
    }
}

#[test]
fn mut_data_pipeline_works() {
    let pipeline = vec![MutDataPipeline::One(12), MutDataPipeline::Two];

    let mut data = MutDataPipelineData::default();
    pipeline.execute_with_mut(&mut data);

    assert_eq!(12, data.one_value);
    assert_eq!(1, data.two_count);
}

struct MacroRefPipelineData {}

enum MacroRefPipeline {
    A,
    B,
}

static MACRO_REF_ONE_COUNT: AtomicI32 = AtomicI32::new(0);
static MACRO_REF_TWO_COUNT: AtomicI32 = AtomicI32::new(0);

impl MacroRefPipeline {
    fn handle_a(_data: &MacroRefPipelineData) {
        MACRO_REF_ONE_COUNT.fetch_add(1, Ordering::SeqCst);
    }

    fn handle_b(_data: &MacroRefPipelineData) {
        MACRO_REF_TWO_COUNT.fetch_add(1, Ordering::SeqCst);
    }
}

// What generation produces for `#[execute_with(MacroRefPipelineData)]` with
// `#[handler(handle_a)]` and `#[handler(handle_b)]`.
impl ExecuteWith<MacroRefPipelineData> for MacroRefPipeline {
    fn execute_with(self, args: &MacroRefPipelineData) {
        match self {
            MacroRefPipeline::A => MacroRefPipeline::handle_a(args),
            MacroRefPipeline::B => MacroRefPipeline::handle_b(args),
        }
    }
}

#[test]
fn macro_ref_pipeline_works() {
    vec![MacroRefPipeline::A, MacroRefPipeline::B].execute_with(&MacroRefPipelineData {});

    assert_eq!(1, MACRO_REF_ONE_COUNT.load(Ordering::SeqCst));
    assert_eq!(1, MACRO_REF_TWO_COUNT.load(Ordering::SeqCst));
}

#[derive(Default)]
struct MacroMutRefData {
    a_count: i32,
    b_count: i32,
}

enum MacroMutRefPipeline {
    A(i32),
    B,
}

impl MacroMutRefPipeline {
    fn handle_a(_i: i32, arg: &mut MacroMutRefData) {
        arg.a_count += 1;
    }

    fn handle_b(arg: &mut MacroMutRefData) {
        arg.b_count += 1;
    }
}

// What generation produces for `#[execute_with(MacroMutRefData)]` with
// `#[handler(handle_a)]` and `#[handler(handle_b)]`.
impl ExecuteWithMut<MacroMutRefData> for MacroMutRefPipeline {
    fn execute_with_mut(self, args: &mut MacroMutRefData) {
        match self {
            MacroMutRefPipeline::A(__1) => MacroMutRefPipeline::handle_a(__1, args),
            MacroMutRefPipeline::B => MacroMutRefPipeline::handle_b(args),
        }
    }
}

#[test]
fn macro_mut_pipeline_works() {
    let mut arg = MacroMutRefData::default();
    vec![MacroMutRefPipeline::A(23), MacroMutRefPipeline::B].execute_with_mut(&mut arg);

    assert_eq!(1, arg.a_count);
    assert_eq!(1, arg.b_count);
}

#[derive(Default)]
struct MutRefData {
    a_count: i32,
    b_count: i32,
}

enum MutRefPipeline {
    A(i32),
    B,
}

impl ExecuteWithMut<MutRefData> for MutRefPipeline {
    fn execute_with_mut(self, arg: &mut MutRefData) {
        match self {
            MutRefPipeline::A(_i) => arg.a_count += 1,
            MutRefPipeline::B => arg.b_count += 1,
        }
    }
}

#[test]
fn _mut_pipeline_works() {
    let mut arg = MutRefData::default();
    vec![MutRefPipeline::A(23), MutRefPipeline::B].execute_with_mut(&mut arg);

    assert_eq!(1, arg.a_count);
    assert_eq!(1, arg.b_count);
}

enum Logged<'a> {
    First(&'a RefCell<Vec<u32>>),
    Second(&'a RefCell<Vec<u32>>),
    Third(&'a RefCell<Vec<u32>>),
}

impl Execute for Logged<'_> {
    fn execute(self) {
        match self {
            Logged::First(log) => log.borrow_mut().push(1),
            Logged::Second(log) => log.borrow_mut().push(2),
            Logged::Third(log) => log.borrow_mut().push(3),
        }
    }
}

#[test]
fn sequence_runs_each_element_once_in_order() {
    let log = RefCell::new(Vec::new());
    vec![Logged::Second(&log), Logged::First(&log), Logged::Third(&log)].execute();
    assert_eq!(*log.borrow(), vec![2, 1, 3]);
}

#[test]
fn empty_sequence_runs_nothing() {
    let pipeline: Vec<Logged> = Vec::new();
    pipeline.execute();
}

enum Observer<'a> {
    Look(&'a RefCell<Vec<u32>>),
}

impl ExecuteWith<u32> for Observer<'_> {
    fn execute_with(self, arg: &u32) {
        match self {
            Observer::Look(seen) => seen.borrow_mut().push(*arg),
        }
    }
}

#[test]
fn shared_argument_is_seen_alike_by_every_element() {
    let seen = RefCell::new(Vec::new());
    vec![Observer::Look(&seen), Observer::Look(&seen), Observer::Look(&seen)].execute_with(&7);
    assert_eq!(*seen.borrow(), vec![7, 7, 7]);
}

struct Counter {
    count: u32,
    trace: Vec<u32>,
}

enum Step {
    Bump,
}

impl ExecuteWithMut<Counter> for Step {
    fn execute_with_mut(self, arg: &mut Counter) {
        match self {
            Step::Bump => {
                arg.trace.push(arg.count);
                arg.count += 1;
            },
        }
    }
}

#[test]
fn exclusive_argument_carries_each_mutation_to_the_next() {
    let mut c = Counter { count: 0, trace: Vec::new() };
    vec![Step::Bump, Step::Bump, Step::Bump].execute_with_mut(&mut c);
    assert_eq!(c.count, 3);
    assert_eq!(c.trace, vec![0, 1, 2]);
}

enum Incs {
    One,
    Two,
}

static INC_ONE: AtomicI32 = AtomicI32::new(0);
static INC_TWO: AtomicI32 = AtomicI32::new(0);

fn inc_one() {
    INC_ONE.fetch_add(1, Ordering::SeqCst);
}

fn inc_two() {
    INC_TWO.fetch_add(1, Ordering::SeqCst);
}

impl Execute for Incs {
    fn execute(self) {
        match self {
            Incs::One => inc_one(),
            Incs::Two => inc_two(),
        }
    }
}

#[test]
fn one_two_scenario_calls_each_handler_once() {
    vec![Incs::One, Incs::Two].execute();
    assert_eq!(INC_ONE.load(Ordering::SeqCst), 1);
    assert_eq!(INC_TWO.load(Ordering::SeqCst), 1);
}

enum Appender<'a> {
    Note(&'a RefCell<String>),
}

impl ExecuteWith<str> for Appender<'_> {
    fn execute_with(self, arg: &str) {
        match self {
            Appender::Note(out) => out.borrow_mut().push_str(arg),
        }
    }
}

#[test]
fn shared_argument_may_be_unsized() {
    let out = RefCell::new(String::new());
    vec![Appender::Note(&out), Appender::Note(&out)].execute_with("ab");
    assert_eq!(*out.borrow(), "abab");
}

struct Total(u32);

impl ExecuteWithMut<[u32]> for Total {
    fn execute_with_mut(self, arg: &mut [u32]) {
        for x in arg.iter_mut() {
            *x += self.0;
        }
    }
}

#[test]
fn exclusive_argument_may_be_unsized() {
    let mut xs = [1u32, 2];
    vec![Total(1), Total(10)].execute_with_mut(&mut xs[..]);
    assert_eq!(xs, [12, 13]);
}
