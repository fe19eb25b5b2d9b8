//! The props/state containers and the binding pull rules.
//!
//! A props container holds a current value, an optional pull-based producer
//! (the binding) and a dirty flag forcing at least one recompute. A pull rule
//! is data — a small closed language over the producer's props and state —
//! interpreted by [`eval_pull`], so the whole binding path is verified.

use vstd::prelude::*;

use crate::values::{ForeachProps, HtmlTextProps, SlotProps, Value, value_eq, value_eq_spec};
use crate::html::AnimationFrame;

verus! {

/// A pull rule: how a consumer's props are derived from its producer's props
/// and state.
#[derive(Debug)]
pub enum PullFn {
    /// Ignore the producer and yield this value.
    ConstVal(Value),
    /// The producer's props, unchanged.
    PropsOf,
    /// The producer's state value, unchanged.
    StateOf,
    /// The producer's textual state, as text-component props; yields nothing
    /// for a non-textual state.
    TextOfState,
    /// Slot props naming the visible branch of a conditional's state; yields
    /// nothing for other states.
    SlotOfCondState,
    /// Yield nothing, leaving the consumer's current value untouched.
    Nothing,
}

/// What a pull rule yields for given producer props and state.
pub open spec fn eval_pull_spec(f: PullFn, props: Value, state: Value) -> Option<Value> {
    match f {
        PullFn::ConstVal(v) => Some(v),
        PullFn::PropsOf => Some(props),
        PullFn::StateOf => Some(state),
        PullFn::TextOfState => match state {
            Value::Str(s) => Some(Value::TextProps(HtmlTextProps { text_content: s })),
            _ => None,
        },
        PullFn::SlotOfCondState => match state {
            Value::CondState(c) => Some(
                Value::Slot(SlotProps { components: c.visible_children }),
            ),
            _ => None,
        },
        PullFn::Nothing => None,
    }
}

/// Evaluate a pull rule on the producer's current props and state.
pub fn eval_pull(f: &PullFn, props: &Value, state: &Value) -> (r: Option<Value>)
    ensures
        r == eval_pull_spec(*f, *props, *state),
{
    match f {
        PullFn::ConstVal(v) => Option::Some(v.clone()),
        PullFn::PropsOf => Option::Some(props.clone()),
        PullFn::StateOf => Option::Some(state.clone()),
        PullFn::TextOfState => match state {
            Value::Str(s) => Option::Some(
                Value::TextProps(HtmlTextProps { text_content: s.clone() }),
            ),
            _ => Option::None,
        },
        PullFn::SlotOfCondState => match state {
            Value::CondState(c) => Option::Some(
                Value::Slot(SlotProps { components: c.visible_children }),
            ),
            _ => Option::None,
        },
        PullFn::Nothing => Option::None,
    }
}

impl Clone for PullFn {
    fn clone(&self) -> (r: PullFn)
        ensures
            r == *self,
    {
        match self {
            PullFn::ConstVal(v) => PullFn::ConstVal(v.clone()),
            PullFn::PropsOf => PullFn::PropsOf,
            PullFn::StateOf => PullFn::StateOf,
            PullFn::TextOfState => PullFn::TextOfState,
            PullFn::SlotOfCondState => PullFn::SlotOfCondState,
            PullFn::Nothing => PullFn::Nothing,
        }
    }
}

/// One binding-graph edge, as the consumer stores it: the producer it pulls
/// from, and the pull rule.
#[derive(Debug)]
pub struct Binding {
    pub producer: u32,
    pub f: PullFn,
}

impl Clone for Binding {
    fn clone(&self) -> (r: Binding)
        ensures
            r == *self,
    {
        Binding { producer: self.producer, f: self.f.clone() }
    }
}

/// A mutable, equality-compared value cell with an optional producer and a
/// dirty flag.
#[derive(Debug)]
pub struct PropsCell {
    pub value: Value,
    pub binding: Option<Binding>,
    pub dirty: bool,
}

impl PropsCell {
    /// A cell holding the given value, unbound and clean.
    pub fn new(value: Value) -> (r: PropsCell)
        ensures
            r.value == value,
            r.binding is None,
            !r.dirty,
    {
        PropsCell { value, binding: Option::None, dirty: false }
    }

    /// The update step of the cell itself, once the caller has resolved where
    /// the candidate value comes from (an explicit value, or the producer's
    /// output). The dirty flag is consumed; the value is replaced only when a
    /// candidate exists and differs by equality, and only that replacement
    /// reports a change in itself — an equal candidate or no candidate
    /// reports whatever the dirty flag forced.
    pub fn update_resolved(&mut self, resolved: Option<Value>) -> (changed: bool)
        ensures
            final(self).binding == old(self).binding,
            !final(self).dirty,
            match resolved {
                Some(v) => {
                    if !value_eq_spec(v, old(self).value) {
                        final(self).value == v && changed
                    } else {
                        final(self).value == old(self).value && changed == old(self).dirty
                    }
                },
                None => final(self).value == old(self).value && changed == old(self).dirty,
            },
    {
        let dirty = self.dirty;
        self.dirty = false;
        match resolved {
            Option::Some(v) => {
                if !value_eq(&v, &self.value) {
                    self.value = v;
                    true
                } else {
                    dirty
                }
            },
            Option::None => dirty,
        }
    }

    /// Read the current value.
    pub fn value(&self) -> (r: Value)
        ensures
            r == self.value,
    {
        self.value.clone()
    }
}

/// A state container: a value cell plus the pending value and the frame
/// token of the scheduler's coalescing discipline. At most one drain task is
/// scheduled at a time; only the last pending value set before the drain
/// survives.
#[derive(Debug)]
pub struct StateCell {
    pub cell: PropsCell,
    pub next_value: Option<Value>,
    pub frame: Option<AnimationFrame>,
}

impl StateCell {
    /// A state holding the given value, with nothing pending.
    pub fn new(value: Value) -> (r: StateCell)
        ensures
            r.cell.value == value,
            r.cell.binding is None,
            !r.cell.dirty,
            r.next_value is None,
            r.frame is None,
    {
        StateCell { cell: PropsCell::new(value), next_value: Option::None, frame: Option::None }
    }
}

/// The value a cell holds after its update step on the given candidate.
pub open spec fn resolved_value(cell: PropsCell, resolved: Option<Value>) -> Value {
    match resolved {
        Some(v) => if !value_eq_spec(v, cell.value) {
            v
        } else {
            cell.value
        },
        None => cell.value,
    }
}

/// Whether the cell's update step on the given candidate reports a change.
pub open spec fn resolved_changed(cell: PropsCell, resolved: Option<Value>) -> bool {
    match resolved {
        Some(v) => if !value_eq_spec(v, cell.value) {
            true
        } else {
            cell.dirty
        },
        None => cell.dirty,
    }
}

/// Whether a value's list references all resolve in tables of the given
/// sizes. Values that carry no reference are always in range.
pub open spec fn value_refs_ok(v: Value, comp_lists: int, value_lists: int) -> bool {
    match v {
        Value::Slot(sp) => (sp.components as int) < comp_lists,
        Value::CondState(c) => (c.if_children as int) < comp_lists && (c.else_children as int)
            < comp_lists && (c.visible_children as int) < comp_lists,
        Value::Foreach(fp) => (fp.items as int) < value_lists,
        _ => true,
    }
}

/// Whether a pull rule's embedded values are in range.
pub open spec fn pull_refs_ok(f: PullFn, comp_lists: int, value_lists: int) -> bool {
    match f {
        PullFn::ConstVal(v) => value_refs_ok(v, comp_lists, value_lists),
        _ => true,
    }
}

/// `eval_pull_spec` yields in-range values from in-range inputs.
pub proof fn lemma_eval_pull_refs_ok(f: PullFn, props: Value, state: Value, cl: int, vl: int)
    requires
        pull_refs_ok(f, cl, vl),
        value_refs_ok(props, cl, vl),
        value_refs_ok(state, cl, vl),
    ensures
        match eval_pull_spec(f, props, state) {
            Some(v) => value_refs_ok(v, cl, vl),
            None => true,
        },
{
}

} // verus!
