//! Running an instance: calling a function, and going on after a pause.

use vstd::prelude::*;
use crate::calls::{enter, import_call, settled};
use crate::exceptions::thrown;
use crate::machine::{ExecResult, Frames, Machine, Outcome, WasmInstance};
use crate::program::{step_takes_one_unit, throwing_is_free};
use crate::step::step;
use crate::types::Value;

verus! {

/// Runs until the outermost function returns, the fuel is used up, something traps or
/// throws past every handler, or the embedder is asked for a result.
pub open spec fn run(m: Machine) -> (Machine, Outcome)
    decreases m.fuel,
{
    proof {
        step_takes_one_unit(m);
        if let Outcome::Exception(tag, values) = step(m).1 {
            throwing_is_free(step(m).0, tag, values);
        }
    }
    let s = step(m);
    match s.1 {
        Outcome::Completed => if s.0.finished {
            s
        } else {
            run(s.0)
        },
        Outcome::Exception(tag, values) => {
            let t = thrown(s.0, tag, values);
            if t.1 {
                run(t.0)
            } else {
                (t.0, s.1)
            }
        },
        _ => s,
    }
}

/// The machine before a call from outside: no call and no block is open. What is on
/// the operand stack stays.
pub open spec fn fresh(m: Machine) -> Machine {
    Machine { finished: false, frames: Frames { call_depth: 0, block_depth: 0, ..m.frames }, ..m }
}

/// Calls the function numbered `f` from outside. A function that is imported is asked
/// for at once.
pub open spec fn call(m: Machine, f: u32, args: Seq<Value>) -> (Machine, Outcome) {
    let p = fresh(m).push_many(args);
    match p.1 {
        Err(e) => (p.0, Outcome::Trap(e)),
        Ok(_) => if f < m.store.module.imported_funcs().len() {
            settled(import_call(p.0, f))
        } else {
            let e = enter(p.0, f);
            match e.1 {
                Err(x) => (e.0, Outcome::Trap(x)),
                Ok(_) => run(e.0),
            }
        },
    }
}

/// Goes on after a pause, with the result that was asked for.
pub open spec fn resumed(m: Machine, result: Option<Value>) -> (Machine, Outcome) {
    match result {
        None => run(m),
        Some(v) => {
            let p = m.push(v);
            match p.1 {
                Err(e) => (p.0, Outcome::Trap(e)),
                Ok(_) => run(p.0),
            }
        },
    }
}

/// Goes on after a pause in which the host threw an exception.
pub open spec fn resumed_throwing(m: Machine, tag: u32, values: Seq<Value>) -> (Machine, Outcome) {
    let t = thrown(m, tag, values);
    if t.1 {
        run(t.0)
    } else {
        (t.0, Outcome::Exception(tag, values))
    }
}

/// Calls the start function, if the module has one.
pub open spec fn started(m: Machine) -> (Machine, Outcome) {
    match m.store.module.start_func {
        Some(f) => call(m, f, Seq::empty()),
        None => (m, Outcome::Completed),
    }
}

/// A run never gains fuel, never changes the module or the class, and stops for want
/// of fuel only when all of it is used up.
pub proof fn run_bounded_by_fuel(m: Machine)
    ensures
        run(m).0.fuel <= m.fuel,
        run(m).1 is OutOfFuel ==> run(m).0.fuel == 0,
        run(m).0.store.module == m.store.module,
        run(m).0.store.class == m.store.class,
    decreases m.fuel,
{
    step_takes_one_unit(m);
    let s = step(m);
    match s.1 {
        Outcome::Completed => {
            if !s.0.finished {
                run_bounded_by_fuel(s.0);
            }
        },
        Outcome::Exception(tag, values) => {
            throwing_is_free(s.0, tag, values);
            if thrown(s.0, tag, values).1 {
                run_bounded_by_fuel(thrown(s.0, tag, values).0);
            }
        },
        _ => {},
    }
}

/// Without fuel a run changes nothing, so that it can go on later.
pub proof fn run_without_fuel(m: Machine)
    requires
        m.fuel == 0,
    ensures
        run(m) == (m, Outcome::OutOfFuel),
{
}

/// A run that completes has finished.
pub proof fn completed_is_finished(m: Machine)
    ensures
        run(m).1 is Completed ==> run(m).0.finished,
    decreases m.fuel,
{
    step_takes_one_unit(m);
    let s = step(m);
    match s.1 {
        Outcome::Completed => {
            if !s.0.finished {
                completed_is_finished(s.0);
            }
        },
        Outcome::Exception(tag, values) => {
            throwing_is_free(s.0, tag, values);
            if thrown(s.0, tag, values).1 {
                completed_is_finished(thrown(s.0, tag, values).0);
            }
        },
        _ => {},
    }
}

impl WasmInstance {
    /// Runs until the outermost function returns, the fuel is used up, something traps
    /// or throws past every handler, or the embedder is asked for a result.
    pub fn run(&mut self) -> (r: ExecResult)
        requires
            old(self).wf(),
        ensures
            (final(self)@, r@) == run(old(self)@),
            final(self).wf(),
    {
        loop
            invariant
                self.wf(),
                run(old(self)@) == run(self@),
            decreases self.fuel,
        {
            proof {
                step_takes_one_unit(self@);
            }
            match self.step() {
                ExecResult::Completed => {
                    if self.finished {
                        return ExecResult::Completed;
                    }
                },
                ExecResult::Exception(tag, values) => {
                    proof {
                        throwing_is_free(self@, tag, values@);
                    }
                    if !self.handle_exception(tag, &values) {
                        return ExecResult::Exception(tag, values);
                    }
                },
                other => {
                    return other;
                },
            }
        }
    }

    /// Calls the function numbered `func_idx`, imports coming first.
    pub fn call_func(&mut self, func_idx: u32, args: &[Value]) -> (r: ExecResult)
        requires
            old(self).wf(),
        ensures
            (final(self)@, r@) == call(old(self)@, func_idx, args@),
            final(self).wf(),
    {
        self.finished = false;
        self.call_depth = 0;
        self.block_depth = 0;
        assert(self@ == fresh(old(self)@));
        assert(args@.take(args@.len() as int) =~= args@);
        match self.push_values(args, args.len()) {
            Err(e) => {
                return ExecResult::Trap(e);
            },
            Ok(_) => {},
        }
        if (func_idx as usize) < self.module.func_import_count() {
            return self.invoke(func_idx);
        }
        match self.enter_function(func_idx) {
            Err(e) => ExecResult::Trap(e),
            Ok(_) => self.run(),
        }
    }

    /// Calls the start function, if the module has one.
    pub fn run_start(&mut self) -> (r: ExecResult)
        requires
            old(self).wf(),
        ensures
            (final(self)@, r@) == started(old(self)@),
            final(self).wf(),
    {
        match self.module.start_func {
            Some(f) => {
                let none: [Value; 0] = [];
                assert(none@ =~= Seq::<Value>::empty());
                self.call_func(f, none.as_slice())
            },
            None => ExecResult::Completed,
        }
    }

    /// Goes on after a call of a host function, or after a floating-point computation,
    /// with its result if it has one.
    pub fn resume(&mut self, return_value: Option<Value>) -> (r: ExecResult)
        requires
            old(self).wf(),
        ensures
            (final(self)@, r@) == resumed(old(self)@, return_value),
            final(self).wf(),
    {
        if let Some(v) = return_value {
            match self.push(v) {
                Err(e) => {
                    return ExecResult::Trap(e);
                },
                Ok(_) => {},
            }
        }
        self.run()
    }

    /// Goes on after a call of a host function that threw an exception.
    pub fn resume_with_exception(&mut self, tag_idx: u32, values: Vec<Value>) -> (r: ExecResult)
        requires
            old(self).wf(),
        ensures
            (final(self)@, r@) == resumed_throwing(old(self)@, tag_idx, values@),
            final(self).wf(),
    {
        if self.handle_exception(tag_idx, &values) {
            self.run()
        } else {
            ExecResult::Exception(tag_idx, values)
        }
    }
}

} // verus!
