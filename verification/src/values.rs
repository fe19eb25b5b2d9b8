//! The value model: the closed union of props/state values that components
//! carry, together with the prop record types for the built-in component
//! kinds and the callback/event-action model for event listeners.
//!
//! Lists that the engine compares by reference identity (a slot's
//! child list, a foreach's item list) are represented by an index into a list
//! table owned by the component system; two lists are "the same reference"
//! exactly when their indices are equal, even if their contents coincide.

use vstd::prelude::*;

verus! {

/// What an event listener does when its event fires. Listener behaviour is
/// data, interpreted by the component system's event dispatcher, so that the
/// whole dispatch path is verified.
#[derive(Debug)]
pub enum EventAction {
    /// Store the event target's current input value as the component's state.
    SetStateFromTarget { component: u32 },
    /// Store the given text as the component's state.
    SetStateText { component: u32, text: String },
}

/// An event listener: an optional action compared by numeric identity.
/// Two callbacks are equal exactly when their identifiers are equal,
/// regardless of the action they carry.
#[derive(Debug)]
pub struct Callback {
    pub action: Option<EventAction>,
    pub id: usize,
}

/// The inline style record an element component manages.
#[derive(Debug)]
pub struct HtmlStyle {
    pub color: Option<String>,
    pub background: Option<String>,
    pub border: Option<String>,
    pub cursor: Option<String>,
    pub font_size: Option<String>,
}

/// The listeners currently attached to an element, one per event name.
#[derive(Debug)]
pub struct HtmlEvents {
    pub click: Callback,
    pub input: Callback,
    pub change: Callback,
}

/// Props of a DOM-element component.
#[derive(Debug)]
pub struct HtmlProps {
    pub class: Option<String>,
    pub class_name: Option<String>,
    pub style: Option<HtmlStyle>,
    pub id: Option<String>,
    pub on_input: Callback,
    pub on_click: Callback,
    pub on_change: Callback,
    pub href: Option<String>,
    pub target: Option<String>,
    pub value: Option<String>,
}

/// Props of a DOM-text component.
#[derive(Debug)]
pub struct HtmlTextProps {
    pub text_content: String,
}

/// Props of a slot: a reference to a list of already-constructed components,
/// compared by list identity, not by contents.
#[derive(Debug)]
pub struct SlotProps {
    pub components: u32,
}

/// State of a conditional: the two branch lists and the currently visible
/// one, each a list reference compared by identity.
#[derive(Debug)]
pub struct IfState {
    pub if_children: u32,
    pub else_children: u32,
    pub visible_children: u32,
}

/// Props of a list container: a reference to a list of item values, compared
/// by list identity.
#[derive(Debug)]
pub struct ForeachProps {
    pub items: u32,
}

/// A props or state value: the closed union over everything the built-in
/// component kinds carry.
#[derive(Debug)]
pub enum Value {
    Unit,
    Bool(bool),
    Int(i64),
    Str(String),
    TextProps(HtmlTextProps),
    Html(HtmlProps),
    Slot(SlotProps),
    CondState(IfState),
    Foreach(ForeachProps),
}

// ---------------------------------------------------------------------------
// Equality. The engine replaces a value only when the new one differs by
// equality, so what equality means is part of the engine's specification:
// strings compare by contents, callbacks by identifier, list references by
// index.
// ---------------------------------------------------------------------------

pub open spec fn opt_string_eq_spec(a: Option<String>, b: Option<String>) -> bool {
    match (a, b) {
        (Option::None, Option::None) => true,
        (Option::Some(x), Option::Some(y)) => x@ == y@,
        _ => false,
    }
}

pub open spec fn callback_eq_spec(a: Callback, b: Callback) -> bool {
    a.id == b.id
}

pub open spec fn style_eq_spec(a: HtmlStyle, b: HtmlStyle) -> bool {
    &&& opt_string_eq_spec(a.color, b.color)
    &&& opt_string_eq_spec(a.background, b.background)
    &&& opt_string_eq_spec(a.border, b.border)
    &&& opt_string_eq_spec(a.cursor, b.cursor)
    &&& opt_string_eq_spec(a.font_size, b.font_size)
}

pub open spec fn opt_style_eq_spec(a: Option<HtmlStyle>, b: Option<HtmlStyle>) -> bool {
    match (a, b) {
        (Option::None, Option::None) => true,
        (Option::Some(x), Option::Some(y)) => style_eq_spec(x, y),
        _ => false,
    }
}

pub open spec fn html_props_eq_spec(a: HtmlProps, b: HtmlProps) -> bool {
    &&& opt_string_eq_spec(a.class, b.class)
    &&& opt_string_eq_spec(a.class_name, b.class_name)
    &&& opt_style_eq_spec(a.style, b.style)
    &&& opt_string_eq_spec(a.id, b.id)
    &&& callback_eq_spec(a.on_input, b.on_input)
    &&& callback_eq_spec(a.on_click, b.on_click)
    &&& callback_eq_spec(a.on_change, b.on_change)
    &&& opt_string_eq_spec(a.href, b.href)
    &&& opt_string_eq_spec(a.target, b.target)
    &&& opt_string_eq_spec(a.value, b.value)
}

pub open spec fn value_eq_spec(a: Value, b: Value) -> bool {
    match (a, b) {
        (Value::Unit, Value::Unit) => true,
        (Value::Bool(x), Value::Bool(y)) => x == y,
        (Value::Int(x), Value::Int(y)) => x == y,
        (Value::Str(x), Value::Str(y)) => x@ == y@,
        (Value::TextProps(x), Value::TextProps(y)) => x.text_content@ == y.text_content@,
        (Value::Html(x), Value::Html(y)) => html_props_eq_spec(x, y),
        (Value::Slot(x), Value::Slot(y)) => x.components == y.components,
        (Value::CondState(x), Value::CondState(y)) => {
            &&& x.if_children == y.if_children
            &&& x.else_children == y.else_children
            &&& x.visible_children == y.visible_children
        },
        (Value::Foreach(x), Value::Foreach(y)) => x.items == y.items,
        _ => false,
    }
}

pub fn opt_string_eq(a: &Option<String>, b: &Option<String>) -> (r: bool)
    ensures
        r == opt_string_eq_spec(*a, *b),
{
    match (a, b) {
        (Option::None, Option::None) => true,
        (Option::Some(x), Option::Some(y)) => x.eq(y),
        _ => false,
    }
}

impl Callback {
    pub fn new(action: Option<EventAction>, id: usize) -> (r: Callback)
        ensures
            r.action == action,
            r.id == id,
    {
        Callback { action, id }
    }
}

impl PartialEq for Callback {
    fn eq(&self, other: &Callback) -> (r: bool) {
        self.id == other.id
    }
}

impl Eq for Callback {}

impl vstd::std_specs::cmp::PartialEqSpecImpl for Callback {
    open spec fn obeys_eq_spec() -> bool {
        true
    }

    open spec fn eq_spec(&self, other: &Callback) -> bool {
        callback_eq_spec(*self, *other)
    }
}

impl PartialEq for HtmlStyle {
    fn eq(&self, other: &HtmlStyle) -> (r: bool) {
        opt_string_eq(&self.color, &other.color)
            && opt_string_eq(&self.background, &other.background)
            && opt_string_eq(&self.border, &other.border)
            && opt_string_eq(&self.cursor, &other.cursor)
            && opt_string_eq(&self.font_size, &other.font_size)
    }
}

impl Eq for HtmlStyle {}

impl vstd::std_specs::cmp::PartialEqSpecImpl for HtmlStyle {
    open spec fn obeys_eq_spec() -> bool {
        true
    }

    open spec fn eq_spec(&self, other: &HtmlStyle) -> bool {
        style_eq_spec(*self, *other)
    }
}

pub fn opt_style_eq(a: &Option<HtmlStyle>, b: &Option<HtmlStyle>) -> (r: bool)
    ensures
        r == opt_style_eq_spec(*a, *b),
{
    match (a, b) {
        (Option::None, Option::None) => true,
        (Option::Some(x), Option::Some(y)) => x == y,
        _ => false,
    }
}

impl PartialEq for HtmlProps {
    fn eq(&self, other: &HtmlProps) -> (r: bool) {
        opt_string_eq(&self.class, &other.class)
            && opt_string_eq(&self.class_name, &other.class_name)
            && opt_style_eq(&self.style, &other.style)
            && opt_string_eq(&self.id, &other.id)
            && self.on_input.id == other.on_input.id
            && self.on_click.id == other.on_click.id
            && self.on_change.id == other.on_change.id
            && opt_string_eq(&self.href, &other.href)
            && opt_string_eq(&self.target, &other.target)
            && opt_string_eq(&self.value, &other.value)
    }
}

impl Eq for HtmlProps {}

impl vstd::std_specs::cmp::PartialEqSpecImpl for HtmlProps {
    open spec fn obeys_eq_spec() -> bool {
        true
    }

    open spec fn eq_spec(&self, other: &HtmlProps) -> bool {
        html_props_eq_spec(*self, *other)
    }
}

/// Structural equality on values, as the engine's change detection uses it.
pub fn value_eq(a: &Value, b: &Value) -> (r: bool)
    ensures
        r == value_eq_spec(*a, *b),
{
    match (a, b) {
        (Value::Unit, Value::Unit) => true,
        (Value::Bool(x), Value::Bool(y)) => x == y,
        (Value::Int(x), Value::Int(y)) => x == y,
        (Value::Str(x), Value::Str(y)) => x.eq(y),
        (Value::TextProps(x), Value::TextProps(y)) => x.text_content.eq(&y.text_content),
        (Value::Html(x), Value::Html(y)) => x == y,
        (Value::Slot(x), Value::Slot(y)) => x.components == y.components,
        (Value::CondState(x), Value::CondState(y)) => {
            x.if_children == y.if_children && x.else_children == y.else_children
                && x.visible_children == y.visible_children
        },
        (Value::Foreach(x), Value::Foreach(y)) => x.items == y.items,
        _ => false,
    }
}

impl PartialEq for Value {
    fn eq(&self, other: &Value) -> (r: bool) {
        value_eq(self, other)
    }
}

impl Eq for Value {}

impl vstd::std_specs::cmp::PartialEqSpecImpl for Value {
    open spec fn obeys_eq_spec() -> bool {
        true
    }

    open spec fn eq_spec(&self, other: &Value) -> bool {
        value_eq_spec(*self, *other)
    }
}

// ---------------------------------------------------------------------------
// Cloning. Every clone is proved to reproduce the value exactly.
// ---------------------------------------------------------------------------

pub fn clone_opt_string(a: &Option<String>) -> (r: Option<String>)
    ensures
        r == *a,
{
    match a {
        Option::None => Option::None,
        Option::Some(s) => Option::Some(s.clone()),
    }
}

impl Clone for EventAction {
    fn clone(&self) -> (r: EventAction)
        ensures
            r == *self,
    {
        match self {
            EventAction::SetStateFromTarget { component } => {
                EventAction::SetStateFromTarget { component: *component }
            },
            EventAction::SetStateText { component, text } => {
                EventAction::SetStateText { component: *component, text: text.clone() }
            },
        }
    }
}

impl Clone for Callback {
    fn clone(&self) -> (r: Callback)
        ensures
            r == *self,
    {
        let action = match &self.action {
            Option::None => Option::None,
            Option::Some(a) => Option::Some(a.clone()),
        };
        Callback { action, id: self.id }
    }
}

impl Clone for HtmlStyle {
    fn clone(&self) -> (r: HtmlStyle)
        ensures
            r == *self,
    {
        HtmlStyle {
            color: clone_opt_string(&self.color),
            background: clone_opt_string(&self.background),
            border: clone_opt_string(&self.border),
            cursor: clone_opt_string(&self.cursor),
            font_size: clone_opt_string(&self.font_size),
        }
    }
}

impl Clone for HtmlEvents {
    fn clone(&self) -> (r: HtmlEvents)
        ensures
            r == *self,
    {
        HtmlEvents { click: self.click.clone(), input: self.input.clone(), change: self.change.clone() }
    }
}

impl Clone for HtmlProps {
    fn clone(&self) -> (r: HtmlProps)
        ensures
            r == *self,
    {
        let style = match &self.style {
            Option::None => Option::None,
            Option::Some(s) => Option::Some(s.clone()),
        };
        HtmlProps {
            class: clone_opt_string(&self.class),
            class_name: clone_opt_string(&self.class_name),
            style,
            id: clone_opt_string(&self.id),
            on_input: self.on_input.clone(),
            on_click: self.on_click.clone(),
            on_change: self.on_change.clone(),
            href: clone_opt_string(&self.href),
            target: clone_opt_string(&self.target),
            value: clone_opt_string(&self.value),
        }
    }
}

impl Clone for HtmlTextProps {
    fn clone(&self) -> (r: HtmlTextProps)
        ensures
            r == *self,
    {
        HtmlTextProps { text_content: self.text_content.clone() }
    }
}

impl Clone for SlotProps {
    fn clone(&self) -> (r: SlotProps)
        ensures
            r == *self,
    {
        SlotProps { components: self.components }
    }
}

impl Clone for IfState {
    fn clone(&self) -> (r: IfState)
        ensures
            r == *self,
    {
        IfState {
            if_children: self.if_children,
            else_children: self.else_children,
            visible_children: self.visible_children,
        }
    }
}

impl Clone for ForeachProps {
    fn clone(&self) -> (r: ForeachProps)
        ensures
            r == *self,
    {
        ForeachProps { items: self.items }
    }
}

impl Clone for Value {
    fn clone(&self) -> (r: Value)
        ensures
            r == *self,
    {
        match self {
            Value::Unit => Value::Unit,
            Value::Bool(b) => Value::Bool(*b),
            Value::Int(i) => Value::Int(*i),
            Value::Str(s) => Value::Str(s.clone()),
            Value::TextProps(t) => Value::TextProps(t.clone()),
            Value::Html(h) => Value::Html(h.clone()),
            Value::Slot(s) => Value::Slot(s.clone()),
            Value::CondState(c) => Value::CondState(c.clone()),
            Value::Foreach(f) => Value::Foreach(f.clone()),
        }
    }
}

// ---------------------------------------------------------------------------
// Defaults.
// ---------------------------------------------------------------------------

impl Default for Callback {
    /// The absent listener: no action, identifier zero.
    fn default() -> (r: Callback)
        ensures
            r.action is None,
            r.id == 0,
    {
        Callback { action: Option::None, id: 0 }
    }
}

impl Default for HtmlEvents {
    fn default() -> (r: HtmlEvents)
        ensures
            r.click.action is None && r.click.id == 0,
            r.input.action is None && r.input.id == 0,
            r.change.action is None && r.change.id == 0,
    {
        HtmlEvents { click: Callback::default(), input: Callback::default(), change: Callback::default() }
    }
}

impl Default for HtmlStyle {
    fn default() -> (r: HtmlStyle)
        ensures
            r.color is None,
            r.background is None,
            r.border is None,
            r.cursor is None,
            r.font_size is None,
    {
        HtmlStyle {
            color: Option::None,
            background: Option::None,
            border: Option::None,
            cursor: Option::None,
            font_size: Option::None,
        }
    }
}

impl Default for HtmlProps {
    fn default() -> (r: HtmlProps)
        ensures
            r.class is None,
            r.class_name is None,
            r.style is None,
            r.id is None,
            r.on_input.id == 0 && r.on_input.action is None,
            r.on_click.id == 0 && r.on_click.action is None,
            r.on_change.id == 0 && r.on_change.action is None,
            r.href is None,
            r.target is None,
            r.value is None,
    {
        HtmlProps {
            class: Option::None,
            class_name: Option::None,
            style: Option::None,
            id: Option::None,
            on_input: Callback::default(),
            on_click: Callback::default(),
            on_change: Callback::default(),
            href: Option::None,
            target: Option::None,
            value: Option::None,
        }
    }
}

} // verus!
