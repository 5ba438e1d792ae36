//! The three execution traits that generated dispatch implements, and their
//! implementation for a `Vec` of such values: every element, in order.
use vstd::prelude::*;

verus! {

/// Provides an execute handler for pipelines.
pub trait Execute: Sized {
    /// What a call of `execute` on this value establishes; an impl that
    /// states nothing keeps the default.
    open spec fn executed(self) -> bool {
        true
    }

    /// Execute a pipeline call to this instance.
    /// Responsible for invoking the relevant handler(s).
    fn execute(self)
        ensures
            self.executed(),
    ;
}

/// Provides an execute handler for pipelines, with a shared argument of type `TArg`.
pub trait ExecuteWith<TArg: ?Sized>: Sized {
    /// What a call of `execute_with` on this value with argument `arg`
    /// establishes; an impl that states nothing keeps the default.
    open spec fn executed_with(self, arg: &TArg) -> bool {
        true
    }

    /// Execute a pipeline call to this instance with an argument.
    /// Responsible for invoking the relevant handler(s).
    fn execute_with(self, arg: &TArg)
        ensures
            self.executed_with(arg),
    ;
}

/// Provides an execute handler for pipelines, with an exclusive argument of type `TArg`.
pub trait ExecuteWithMut<TArg: ?Sized>: Sized {
    /// What a call of `execute_with_mut` on this value establishes of the
    /// argument's value before and after; an impl that states nothing keeps
    /// the default.
    open spec fn executed_with_mut(self, before: &TArg, after: &TArg) -> bool {
        true
    }

    /// Execute a pipeline call to this instance with a mutable argument.
    /// Responsible for invoking the relevant handler(s).
    fn execute_with_mut(self, arg: &mut TArg)
        ensures
            self.executed_with_mut(&*old(arg), &*final(arg)),
    ;
}

/// `states` threads the argument through `items` in order: item `i` takes it
/// from `states[i]` to `states[i + 1]`.
pub open spec fn threads<T: ExecuteWithMut<TArg>, TArg: ?Sized>(items: Seq<T>, states: Seq<&TArg>) -> bool {
    &&& states.len() == items.len() + 1
    &&& forall|i: int| 0 <= i < items.len() ==> (#[trigger] items[i]).executed_with_mut(states[i], states[i + 1])
}

impl<T: Execute> Execute for Vec<T> {
    /// Every element was executed.
    open spec fn executed(self) -> bool {
        forall|i: int| 0 <= i < self.len() ==> (#[trigger] self@[i]).executed()
    }

    fn execute(self) {
        let ghost items = self@;
        let n = self.len();
        let mut rest = self;
        let mut i: usize = 0;
        while rest.len() > 0
            invariant
                n == items.len(),
                i + rest.len() == items.len(),
                rest@ == items.subrange(i as int, items.len() as int),
                forall|j: int| 0 <= j < i ==> (#[trigger] items[j]).executed(),
            decreases rest.len(),
        {
            let item = rest.remove(0);
            assert(item == items[i as int]);
            item.execute();
            i = i + 1;
            assert(rest@ =~= items.subrange(i as int, items.len() as int));
        }
    }
}

impl<T: ExecuteWith<TArg>, TArg: ?Sized> ExecuteWith<TArg> for Vec<T> {
    /// Every element was executed with this same argument.
    open spec fn executed_with(self, arg: &TArg) -> bool {
        forall|i: int| 0 <= i < self.len() ==> (#[trigger] self@[i]).executed_with(arg)
    }

    fn execute_with(self, arg: &TArg) {
        let ghost items = self@;
        let n = self.len();
        let mut rest = self;
        let mut i: usize = 0;
        while rest.len() > 0
            invariant
                n == items.len(),
                i + rest.len() == items.len(),
                rest@ == items.subrange(i as int, items.len() as int),
                forall|j: int| 0 <= j < i ==> (#[trigger] items[j]).executed_with(arg),
            decreases rest.len(),
        {
            let item = rest.remove(0);
            assert(item == items[i as int]);
            item.execute_with(arg);
            i = i + 1;
            assert(rest@ =~= items.subrange(i as int, items.len() as int));
        }
    }
}

impl<T: ExecuteWithMut<TArg>, TArg: ?Sized> ExecuteWithMut<TArg> for Vec<T> {
    /// The elements, in order, took the argument from `before` to `after`,
    /// each one starting from where the previous one left it.
    open spec fn executed_with_mut(self, before: &TArg, after: &TArg) -> bool {
        exists|states: Seq<&TArg>|
            #[trigger] threads(self@, states) && states[0] == before && states.last() == after
    }

    fn execute_with_mut(self, arg: &mut TArg) {
        let ghost items = self@;
        let ghost mut states = seq![&*arg];
        let n = self.len();
        let mut rest = self;
        let mut i: usize = 0;
        while rest.len() > 0
            invariant
                n == items.len(),
                i + rest.len() == items.len(),
                rest@ == items.subrange(i as int, items.len() as int),
                threads(items.subrange(0, i as int), states),
                states[0] == &*old(arg),
                states.last() == &*arg,
            decreases rest.len(),
        {
            let item = rest.remove(0);
            assert(item == items[i as int]);
            let ghost prev = states;
            item.execute_with_mut(arg);
            proof {
                states = states.push(&*arg);
                assert forall|j: int| 0 <= j < i + 1 implies (#[trigger] items.subrange(0, i + 1)[j]).executed_with_mut(
                    states[j],
                    states[j + 1],
                ) by {
                    if j < i {
                        assert(items.subrange(0, i as int)[j] == items.subrange(0, i + 1)[j]);
                        assert(prev[j] == states[j] && prev[j + 1] == states[j + 1]);
                    }
                }
            }
            i = i + 1;
            assert(rest@ =~= items.subrange(i as int, items.len() as int));
        }
        assert(items.subrange(0, i as int) =~= items);
        assert(threads(items, states));
    }
}

} // verus!
