//! The typed AST of a log message, its mathematical model, and the reduction
//! of a message into an ordered list of (condition-set, text) pairs.

use vstd::prelude::*;

use super::condition::{
    sp_cond_of_if_param, sp_dyn_of_function, sp_dyn_of_tag, Condition, ConditionError, DynamicText,
    DynamicTextError, SpecOrigin,
};

verus! {

// ---------------------------------------------------------------------------
// The executable AST.
// ---------------------------------------------------------------------------

/// Object literal parameter of a tag: a sheet kind.
#[derive(Debug, Clone, Copy, PartialEq, Eq, Structural)]
pub enum Obj {
    ObjStr,
    BNpcName,
}

/// Name of a tag (the angle-bracket call form).
#[derive(Debug, Clone, Copy, PartialEq, Eq, Structural)]
pub enum TagName {
    Clickable,
    Sheet,
    SheetEn,
}

/// Name of a function (the bare call form).
#[derive(Debug, Clone, Copy, PartialEq, Eq, Structural)]
pub enum FuncName {
    Equal,
    ObjectParameter,
    PlayerParameter,
}

/// A parameter of a tag or function call. Recursive: a parameter may itself
/// be an element or a nested call.
#[derive(Debug)]
pub enum Param {
    Element(Element),
    Function(Function),
    Num(u32),
    Obj(Obj),
}

/// An angle-bracket call: `<Name(params...)>` or `<Name(params...)/>`.
#[derive(Debug)]
pub struct Tag {
    pub name: TagName,
    pub params: Vec<Param>,
}

/// A bare call: `Name(params...)`.
#[derive(Debug)]
pub struct Function {
    pub name: FuncName,
    pub params: Vec<Param>,
}

/// The condition of an if-else construct: only these two node kinds may
/// appear there.
#[derive(Debug)]
pub enum IfParam {
    Function(Function),
    Tag(Tag),
}

/// One item of an if- or else-branch.
#[derive(Debug)]
pub enum IfElseThen {
    Function(Function),
    Element(Element),
    Text(String),
}

/// An `<If(cond)>...<Else/>...</If>` construct.
#[derive(Debug)]
pub struct IfElse {
    pub if_cond: IfParam,
    pub if_then: Vec<IfElseThen>,
    pub else_then: Vec<IfElseThen>,
}

/// An element: an if-else construct, or a tag with optional inline text
/// (an open/close pair holds the text; an auto-closing tag holds none).
#[derive(Debug)]
pub enum Element {
    IfElse(Box<IfElse>),
    Tag(Tag, Option<String>),
}

/// One part of a message: a run of plain text or an element.
#[derive(Debug)]
pub enum MessagePart {
    Element(Element),
    Text(String),
}

/// A parsed log message: the ordered sequence of its parts.
#[derive(Debug)]
pub struct Message(pub Vec<MessagePart>);

// ---------------------------------------------------------------------------
// The mathematical model of the AST. `Vec` and `String` fields become `Seq`s;
// everything else carries over. These types only ever exist in ghost code.
// ---------------------------------------------------------------------------

pub enum SpecParam {
    Element(SpecElement),
    Function(SpecFunction),
    Num(u32),
    Obj(Obj),
}

pub struct SpecTag {
    pub name: TagName,
    pub params: Seq<SpecParam>,
}

pub struct SpecFunction {
    pub name: FuncName,
    pub params: Seq<SpecParam>,
}

pub enum SpecIfParam {
    Function(SpecFunction),
    Tag(SpecTag),
}

pub enum SpecIfElseThen {
    Function(SpecFunction),
    Element(SpecElement),
    Text(Seq<char>),
}

pub struct SpecIfElse {
    pub if_cond: SpecIfParam,
    pub if_then: Seq<SpecIfElseThen>,
    pub else_then: Seq<SpecIfElseThen>,
}

pub enum SpecElement {
    IfElse(SpecIfElse),
    Tag(SpecTag, Option<Seq<char>>),
}

pub enum SpecMessagePart {
    Element(SpecElement),
    Text(Seq<char>),
}

pub struct SpecMessage {
    pub parts: Seq<SpecMessagePart>,
}

// ---------------------------------------------------------------------------
// Views: each executable AST node denotes exactly one model value.
// ---------------------------------------------------------------------------

pub open spec fn view_param(p: Param) -> SpecParam
    decreases p,
{
    match p {
        Param::Element(e) => SpecParam::Element(view_element(e)),
        Param::Function(f) => SpecParam::Function(view_function(f)),
        Param::Num(n) => SpecParam::Num(n),
        Param::Obj(o) => SpecParam::Obj(o),
    }
}

pub open spec fn view_params(ps: Seq<Param>) -> Seq<SpecParam>
    decreases ps,
{
    if ps.len() == 0 {
        Seq::empty()
    } else {
        view_params(ps.subrange(0, ps.len() - 1)).push(view_param(ps[ps.len() - 1]))
    }
}

pub open spec fn view_function(f: Function) -> SpecFunction
    decreases f,
{
    SpecFunction { name: f.name, params: view_params(f.params@) }
}

pub open spec fn view_tag(t: Tag) -> SpecTag
    decreases t,
{
    SpecTag { name: t.name, params: view_params(t.params@) }
}

pub open spec fn view_if_param(p: IfParam) -> SpecIfParam
    decreases p,
{
    match p {
        IfParam::Function(f) => SpecIfParam::Function(view_function(f)),
        IfParam::Tag(t) => SpecIfParam::Tag(view_tag(t)),
    }
}

pub open spec fn view_then(t: IfElseThen) -> SpecIfElseThen
    decreases t,
{
    match t {
        IfElseThen::Function(f) => SpecIfElseThen::Function(view_function(f)),
        IfElseThen::Element(e) => SpecIfElseThen::Element(view_element(e)),
        IfElseThen::Text(s) => SpecIfElseThen::Text(s@),
    }
}

pub open spec fn view_thens(ts: Seq<IfElseThen>) -> Seq<SpecIfElseThen>
    decreases ts,
{
    if ts.len() == 0 {
        Seq::empty()
    } else {
        view_thens(ts.subrange(0, ts.len() - 1)).push(view_then(ts[ts.len() - 1]))
    }
}

pub open spec fn view_if_else(ie: IfElse) -> SpecIfElse
    decreases ie,
{
    SpecIfElse {
        if_cond: view_if_param(ie.if_cond),
        if_then: view_thens(ie.if_then@),
        else_then: view_thens(ie.else_then@),
    }
}

pub open spec fn view_element(e: Element) -> SpecElement
    decreases e,
{
    match e {
        Element::IfElse(ie) => SpecElement::IfElse(view_if_else(*ie)),
        Element::Tag(t, s) => SpecElement::Tag(
            view_tag(t),
            match s {
                Some(x) => Some(x@),
                None => None,
            },
        ),
    }
}

pub open spec fn view_part(p: MessagePart) -> SpecMessagePart
    decreases p,
{
    match p {
        MessagePart::Element(e) => SpecMessagePart::Element(view_element(e)),
        MessagePart::Text(s) => SpecMessagePart::Text(s@),
    }
}

pub open spec fn view_parts(ps: Seq<MessagePart>) -> Seq<SpecMessagePart>
    decreases ps,
{
    if ps.len() == 0 {
        Seq::empty()
    } else {
        view_parts(ps.subrange(0, ps.len() - 1)).push(view_part(ps[ps.len() - 1]))
    }
}

pub open spec fn view_message(m: Message) -> SpecMessage
    decreases m,
{
    SpecMessage { parts: view_parts(m.0@) }
}

impl View for Message {
    type V = SpecMessage;

    open spec fn view(&self) -> SpecMessage {
        view_message(*self)
    }
}

impl View for Function {
    type V = SpecFunction;

    open spec fn view(&self) -> SpecFunction {
        view_function(*self)
    }
}

impl View for Tag {
    type V = SpecTag;

    open spec fn view(&self) -> SpecTag {
        view_tag(*self)
    }
}

impl View for IfParam {
    type V = SpecIfParam;

    open spec fn view(&self) -> SpecIfParam {
        view_if_param(*self)
    }
}

// ---------------------------------------------------------------------------
// Verified deep clones. Each clone denotes the same model value as the
// original; a derived clone would leave Verus knowing nothing of the copy.
// ---------------------------------------------------------------------------

fn clone_params(ps: &Vec<Param>) -> (r: Vec<Param>)
    ensures
        view_params(r@) == view_params(ps@),
    decreases *ps,
{
    let ghost whole = *ps;
    let mut r: Vec<Param> = Vec::new();
    let mut i: usize = 0;
    while i < ps.len()
        invariant
            ps == whole,
            i <= ps.len(),
            r@.len() == i,
            forall|k: int| 0 <= k < i ==> view_param(r@[k]) == view_param(ps@[k]),
        decreases ps.len() - i,
    {
        r.push(ps[i].clone());
        i += 1;
    }
    proof {
        lemma_view_params_pointwise(r@);
        lemma_view_params_pointwise(ps@);
        assert(view_params(r@) =~= view_params(ps@));
    }
    r
}

impl Clone for Param {
    fn clone(&self) -> (r: Param)
        ensures
            view_param(r) == view_param(*self),
        decreases *self,
    {
        match self {
            Param::Element(e) => Param::Element(e.clone()),
            Param::Function(f) => Param::Function(f.clone()),
            Param::Num(n) => Param::Num(*n),
            Param::Obj(o) => Param::Obj(*o),
        }
    }
}

impl Clone for Function {
    fn clone(&self) -> (r: Function)
        ensures
            view_function(r) == view_function(*self),
        decreases *self,
    {
        Function { name: self.name, params: clone_params(&self.params) }
    }
}

impl Clone for Tag {
    fn clone(&self) -> (r: Tag)
        ensures
            view_tag(r) == view_tag(*self),
        decreases *self,
    {
        Tag { name: self.name, params: clone_params(&self.params) }
    }
}

impl Clone for IfParam {
    fn clone(&self) -> (r: IfParam)
        ensures
            view_if_param(r) == view_if_param(*self),
        decreases *self,
    {
        match self {
            IfParam::Function(f) => IfParam::Function(f.clone()),
            IfParam::Tag(t) => IfParam::Tag(t.clone()),
        }
    }
}

impl Clone for IfElseThen {
    fn clone(&self) -> (r: IfElseThen)
        ensures
            view_then(r) == view_then(*self),
        decreases *self,
    {
        match self {
            IfElseThen::Function(f) => IfElseThen::Function(f.clone()),
            IfElseThen::Element(e) => IfElseThen::Element(e.clone()),
            IfElseThen::Text(s) => IfElseThen::Text(s.clone()),
        }
    }
}

fn clone_thens(ts: &Vec<IfElseThen>) -> (r: Vec<IfElseThen>)
    ensures
        view_thens(r@) == view_thens(ts@),
    decreases *ts,
{
    let ghost whole = *ts;
    let mut r: Vec<IfElseThen> = Vec::new();
    let mut i: usize = 0;
    while i < ts.len()
        invariant
            ts == whole,
            i <= ts.len(),
            r@.len() == i,
            forall|k: int| 0 <= k < i ==> view_then(r@[k]) == view_then(ts@[k]),
        decreases ts.len() - i,
    {
        r.push(ts[i].clone());
        i += 1;
    }
    proof {
        lemma_view_thens_pointwise(r@);
        lemma_view_thens_pointwise(ts@);
        assert(view_thens(r@) =~= view_thens(ts@));
    }
    r
}

impl Clone for IfElse {
    fn clone(&self) -> (r: IfElse)
        ensures
            view_if_else(r) == view_if_else(*self),
        decreases *self,
    {
        IfElse {
            if_cond: self.if_cond.clone(),
            if_then: clone_thens(&self.if_then),
            else_then: clone_thens(&self.else_then),
        }
    }
}

impl Clone for Element {
    fn clone(&self) -> (r: Element)
        ensures
            view_element(r) == view_element(*self),
        decreases *self,
    {
        match self {
            Element::IfElse(ie) => Element::IfElse(Box::new((**ie).clone())),
            Element::Tag(t, s) => Element::Tag(
                t.clone(),
                match s {
                    Some(x) => Some(x.clone()),
                    None => None,
                },
            ),
        }
    }
}

impl Clone for MessagePart {
    fn clone(&self) -> (r: MessagePart)
        ensures
            view_part(r) == view_part(*self),
        decreases *self,
    {
        match self {
            MessagePart::Element(e) => MessagePart::Element(e.clone()),
            MessagePart::Text(s) => MessagePart::Text(s.clone()),
        }
    }
}

impl Clone for Message {
    fn clone(&self) -> (r: Message)
        ensures
            view_message(r) == view_message(*self),
    {
        let ghost whole = self.0@;
        let mut parts: Vec<MessagePart> = Vec::new();
        let mut i: usize = 0;
        while i < self.0.len()
            invariant
                self.0@ == whole,
                i <= self.0.len(),
                parts@.len() == i,
                forall|k: int| 0 <= k < i ==> view_part(parts@[k]) == view_part(self.0@[k]),
            decreases self.0.len() - i,
        {
            parts.push(self.0[i].clone());
            i += 1;
        }
        proof {
            lemma_view_parts_pointwise(parts@);
            lemma_view_parts_pointwise(self.0@);
            assert(view_parts(parts@) =~= view_parts(self.0@));
        }
        Message(parts)
    }
}

// ---------------------------------------------------------------------------
// Errors of the reduction, with their model.
// ---------------------------------------------------------------------------

/// Error produced while reducing a message AST to condition texts.
#[derive(Debug, Clone)]
pub enum EmoteTextProcessError {
    /// A function appeared as a text leaf although it can never resolve to
    /// dynamic text.
    DanglingFunction { name: FuncName },
    /// A function was called with parameters no rule accepts.
    InvalidFunc { name: FuncName, params: Vec<Param> },
    /// A tag was called with parameters no rule accepts.
    InvalidTag { name: TagName, params: Vec<Param> },
    /// A function call produced a value of an unexpected kind.
    UnexpectedFuncReturn { name: FuncName, params: Vec<Param>, value: String },
    /// A tag call produced a value of an unexpected kind.
    UnexpectedTagReturn { name: TagName, params: Vec<Param>, value: String },
    /// A `Clickable` wrapper held something other than a single element.
    UnexpectedClickable { params: Vec<Param> },
    /// An object literal appeared as a text leaf.
    UnexpectedObj { name: Obj },
    /// A bare number appeared as a text leaf.
    UnexpectedNum { value: u32 },
    /// An if-condition call shape was not recognized.
    ConditionError(ConditionError),
    /// A text-leaf call shape was not recognized.
    DynamicTextError(DynamicTextError),
}

/// Model of [`EmoteTextProcessError`].
pub enum SpecProcessError {
    DanglingFunction { name: FuncName },
    InvalidFunc { name: FuncName, params: Seq<SpecParam> },
    InvalidTag { name: TagName, params: Seq<SpecParam> },
    UnexpectedFuncReturn { name: FuncName, params: Seq<SpecParam>, value: Seq<char> },
    UnexpectedTagReturn { name: TagName, params: Seq<SpecParam>, value: Seq<char> },
    UnexpectedClickable { params: Seq<SpecParam> },
    UnexpectedObj { name: Obj },
    UnexpectedNum { value: u32 },
    ConditionError(SpecOrigin),
    DynamicTextError(SpecOrigin),
}

pub open spec fn view_process_error(e: EmoteTextProcessError) -> SpecProcessError {
    match e {
        EmoteTextProcessError::DanglingFunction { name } => SpecProcessError::DanglingFunction {
            name,
        },
        EmoteTextProcessError::InvalidFunc { name, params } => SpecProcessError::InvalidFunc {
            name,
            params: view_params(params@),
        },
        EmoteTextProcessError::InvalidTag { name, params } => SpecProcessError::InvalidTag {
            name,
            params: view_params(params@),
        },
        EmoteTextProcessError::UnexpectedFuncReturn { name, params, value } => {
            SpecProcessError::UnexpectedFuncReturn { name, params: view_params(params@), value: value@ }
        },
        EmoteTextProcessError::UnexpectedTagReturn { name, params, value } => {
            SpecProcessError::UnexpectedTagReturn { name, params: view_params(params@), value: value@ }
        },
        EmoteTextProcessError::UnexpectedClickable { params } => {
            SpecProcessError::UnexpectedClickable { params: view_params(params@) }
        },
        EmoteTextProcessError::UnexpectedObj { name } => SpecProcessError::UnexpectedObj { name },
        EmoteTextProcessError::UnexpectedNum { value } => SpecProcessError::UnexpectedNum { value },
        EmoteTextProcessError::ConditionError(ce) => SpecProcessError::ConditionError(ce@),
        EmoteTextProcessError::DynamicTextError(de) => SpecProcessError::DynamicTextError(de@),
    }
}

impl View for EmoteTextProcessError {
    type V = SpecProcessError;

    open spec fn view(&self) -> SpecProcessError {
        view_process_error(*self)
    }
}

impl From<ConditionError> for EmoteTextProcessError {
    fn from(e: ConditionError) -> (r: EmoteTextProcessError) {
        EmoteTextProcessError::ConditionError(e)
    }
}

impl vstd::std_specs::convert::FromSpecImpl<ConditionError> for EmoteTextProcessError {
    open spec fn obeys_from_spec() -> bool {
        true
    }

    open spec fn from_spec(e: ConditionError) -> EmoteTextProcessError {
        EmoteTextProcessError::ConditionError(e)
    }
}

impl From<DynamicTextError> for EmoteTextProcessError {
    fn from(e: DynamicTextError) -> (r: EmoteTextProcessError) {
        EmoteTextProcessError::DynamicTextError(e)
    }
}

impl vstd::std_specs::convert::FromSpecImpl<DynamicTextError> for EmoteTextProcessError {
    open spec fn obeys_from_spec() -> bool {
        true
    }

    open spec fn from_spec(e: DynamicTextError) -> EmoteTextProcessError {
        EmoteTextProcessError::DynamicTextError(e)
    }
}

// ---------------------------------------------------------------------------
// Condition texts: the reduced form of a message, with its model.
// ---------------------------------------------------------------------------

/// A piece of output text: fixed, or a participant-dependent slot.
#[derive(Debug, Clone, PartialEq)]
pub enum Text {
    Dynamic(DynamicText),
    Static(String),
}

/// Model of [`Text`].
pub enum SpecText {
    Dynamic(DynamicText),
    Static(Seq<char>),
}

pub open spec fn view_text(t: Text) -> SpecText {
    match t {
        Text::Dynamic(d) => SpecText::Dynamic(d),
        Text::Static(s) => SpecText::Static(s@),
    }
}

impl View for Text {
    type V = SpecText;

    open spec fn view(&self) -> SpecText {
        view_text(*self)
    }
}

/// One required condition value: the condition and the truth value it must
/// take for a piece of text to be emitted.
#[derive(Debug, Clone, Copy, PartialEq, Eq, Structural)]
pub struct ConditionState {
    pub cond: Condition,
    pub is_true: bool,
}

/// A piece of text together with the conjunction of condition values under
/// which it is emitted.
#[derive(Debug, Clone, PartialEq)]
pub struct ConditionText {
    pub conds: Vec<ConditionState>,
    pub text: Text,
}

/// Model of [`ConditionText`].
pub struct SpecConditionText {
    pub conds: Seq<ConditionState>,
    pub text: SpecText,
}

pub open spec fn view_condition_text(ct: ConditionText) -> SpecConditionText {
    SpecConditionText { conds: ct.conds@, text: view_text(ct.text) }
}

impl View for ConditionText {
    type V = SpecConditionText;

    open spec fn view(&self) -> SpecConditionText {
        view_condition_text(*self)
    }
}

/// Pointwise model of a list of condition texts.
pub open spec fn view_condition_texts(l: Seq<ConditionText>) -> Seq<SpecConditionText> {
    Seq::new(l.len(), |k: int| view_condition_text(l[k]))
}

// ---------------------------------------------------------------------------
// Basic facts about the list views.
// ---------------------------------------------------------------------------

/// The view of a list of parameters is pointwise.
pub proof fn lemma_view_params_pointwise(ps: Seq<Param>)
    ensures
        view_params(ps).len() == ps.len(),
        forall|k: int| 0 <= k < ps.len() ==> view_params(ps)[k] == view_param(ps[k]),
    decreases ps.len(),
{
    if ps.len() > 0 {
        lemma_view_params_pointwise(ps.subrange(0, ps.len() - 1));
        assert forall|k: int| 0 <= k < ps.len() implies view_params(ps)[k] == view_param(
            ps[k],
        ) by {
            if k < ps.len() - 1 {
                assert(ps.subrange(0, ps.len() - 1)[k] == ps[k]);
            }
        }
    }
}

/// The view of a list of branch items is pointwise.
pub proof fn lemma_view_thens_pointwise(ts: Seq<IfElseThen>)
    ensures
        view_thens(ts).len() == ts.len(),
        forall|k: int| 0 <= k < ts.len() ==> view_thens(ts)[k] == view_then(ts[k]),
    decreases ts.len(),
{
    if ts.len() > 0 {
        lemma_view_thens_pointwise(ts.subrange(0, ts.len() - 1));
        assert forall|k: int| 0 <= k < ts.len() implies view_thens(ts)[k] == view_then(
            ts[k],
        ) by {
            if k < ts.len() - 1 {
                assert(ts.subrange(0, ts.len() - 1)[k] == ts[k]);
            }
        }
    }
}

/// The view of a list of message parts is pointwise.
pub proof fn lemma_view_parts_pointwise(ps: Seq<MessagePart>)
    ensures
        view_parts(ps).len() == ps.len(),
        forall|k: int| 0 <= k < ps.len() ==> view_parts(ps)[k] == view_part(ps[k]),
    decreases ps.len(),
{
    if ps.len() > 0 {
        lemma_view_parts_pointwise(ps.subrange(0, ps.len() - 1));
        assert forall|k: int| 0 <= k < ps.len() implies view_parts(ps)[k] == view_part(
            ps[k],
        ) by {
            if k < ps.len() - 1 {
                assert(ps.subrange(0, ps.len() - 1)[k] == ps[k]);
            }
        }
    }
}


// ---------------------------------------------------------------------------
// The reduction, as a mathematical function: walk the AST, accumulating the
// conjunction of condition values required to reach each text leaf, and
// collect the leaves in source order.
// ---------------------------------------------------------------------------

/// The node an if-parameter resolution error reports.
pub open spec fn sp_origin_of_if_param(p: SpecIfParam) -> SpecOrigin {
    match p {
        SpecIfParam::Function(f) => SpecOrigin::Function(f),
        SpecIfParam::Tag(t) => SpecOrigin::Tag(t),
    }
}

pub open spec fn sp_process_parts(
    parts: Seq<SpecMessagePart>,
    conds: Seq<ConditionState>,
) -> Result<Seq<SpecConditionText>, SpecProcessError>
    decreases parts,
{
    if parts.len() == 0 {
        Ok(Seq::empty())
    } else {
        match sp_process_part(parts[0], conds) {
            Err(e) => Err(e),
            Ok(l1) => match sp_process_parts(parts.drop_first(), conds) {
                Err(e) => Err(e),
                Ok(l2) => Ok(l1 + l2),
            },
        }
    }
}

pub open spec fn sp_process_part(
    p: SpecMessagePart,
    conds: Seq<ConditionState>,
) -> Result<Seq<SpecConditionText>, SpecProcessError>
    decreases p,
{
    match p {
        SpecMessagePart::Text(t) => Ok(
            seq![SpecConditionText { conds, text: SpecText::Static(t) }],
        ),
        SpecMessagePart::Element(e) => sp_process_element(e, conds),
    }
}

pub open spec fn sp_process_element(
    e: SpecElement,
    conds: Seq<ConditionState>,
) -> Result<Seq<SpecConditionText>, SpecProcessError>
    decreases e,
{
    match e {
        SpecElement::IfElse(ie) => sp_process_if_else(ie, conds),
        // Inline text of an open/close tag pair carries no meaning of its
        // own; only the tag is interpreted.
        SpecElement::Tag(t, _s) => sp_process_tag(t, conds),
    }
}

pub open spec fn sp_process_tag(
    t: SpecTag,
    conds: Seq<ConditionState>,
) -> Result<Seq<SpecConditionText>, SpecProcessError>
    decreases t,
{
    if t.name == TagName::Clickable && t.params.len() == 1 {
        // Clickable is a transparent wrapper around its single parameter.
        sp_process_param(t.params[0], conds)
    } else {
        match sp_dyn_of_tag(t) {
            Some(d) => Ok(seq![SpecConditionText { conds, text: SpecText::Dynamic(d) }]),
            None => Err(SpecProcessError::DynamicTextError(SpecOrigin::Tag(t))),
        }
    }
}

pub open spec fn sp_process_param(
    p: SpecParam,
    conds: Seq<ConditionState>,
) -> Result<Seq<SpecConditionText>, SpecProcessError>
    decreases p,
{
    match p {
        SpecParam::Element(e) => sp_process_element(e, conds),
        SpecParam::Function(f) => sp_process_function(f, conds),
        SpecParam::Obj(o) => Err(SpecProcessError::UnexpectedObj { name: o }),
        SpecParam::Num(n) => Err(SpecProcessError::UnexpectedNum { value: n }),
    }
}

/// A function leaf either denotes a dynamic text slot, or is rejected: with
/// `DanglingFunction` when its name can never denote dynamic text at all,
/// and with the unknown-shape error otherwise.
pub open spec fn sp_process_function(
    f: SpecFunction,
    conds: Seq<ConditionState>,
) -> Result<Seq<SpecConditionText>, SpecProcessError> {
    match f.name {
        FuncName::Equal => Err(SpecProcessError::DanglingFunction { name: f.name }),
        FuncName::PlayerParameter => Err(SpecProcessError::DanglingFunction { name: f.name }),
        FuncName::ObjectParameter => match sp_dyn_of_function(f) {
            Some(d) => Ok(seq![SpecConditionText { conds, text: SpecText::Dynamic(d) }]),
            None => Err(SpecProcessError::DynamicTextError(SpecOrigin::Function(f))),
        },
    }
}

pub open spec fn sp_process_if_else(
    ie: SpecIfElse,
    conds: Seq<ConditionState>,
) -> Result<Seq<SpecConditionText>, SpecProcessError>
    decreases ie,
{
    match sp_cond_of_if_param(ie.if_cond) {
        None => Err(SpecProcessError::ConditionError(sp_origin_of_if_param(ie.if_cond))),
        Some(c) => {
            let if_conds = conds.push(ConditionState { cond: c, is_true: true });
            let else_conds = conds.push(ConditionState { cond: c, is_true: false });
            match sp_process_thens(ie.if_then, if_conds) {
                Err(e) => Err(e),
                Ok(l1) => match sp_process_thens(ie.else_then, else_conds) {
                    Err(e) => Err(e),
                    Ok(l2) => Ok(l1 + l2),
                },
            }
        },
    }
}

pub open spec fn sp_process_thens(
    ts: Seq<SpecIfElseThen>,
    conds: Seq<ConditionState>,
) -> Result<Seq<SpecConditionText>, SpecProcessError>
    decreases ts,
{
    if ts.len() == 0 {
        Ok(Seq::empty())
    } else {
        match sp_process_then(ts[0], conds) {
            Err(e) => Err(e),
            Ok(l1) => match sp_process_thens(ts.drop_first(), conds) {
                Err(e) => Err(e),
                Ok(l2) => Ok(l1 + l2),
            },
        }
    }
}

pub open spec fn sp_process_then(
    th: SpecIfElseThen,
    conds: Seq<ConditionState>,
) -> Result<Seq<SpecConditionText>, SpecProcessError>
    decreases th,
{
    match th {
        SpecIfElseThen::Function(f) => sp_process_function(f, conds),
        SpecIfElseThen::Element(e) => sp_process_element(e, conds),
        SpecIfElseThen::Text(t) => Ok(
            seq![SpecConditionText { conds, text: SpecText::Static(t) }],
        ),
    }
}

/// Reduction of a whole message starts with no accumulated conditions.
pub open spec fn sp_process_message(m: SpecMessage) -> Result<
    Seq<SpecConditionText>,
    SpecProcessError,
> {
    sp_process_parts(m.parts, Seq::empty())
}

// ---------------------------------------------------------------------------
// Reduction emits leaves in source order: the reduction of a concatenation
// is the concatenation of the reductions.
// ---------------------------------------------------------------------------

/// Order preservation over message parts.
pub proof fn lemma_process_parts_append(
    p1: Seq<SpecMessagePart>,
    p2: Seq<SpecMessagePart>,
    conds: Seq<ConditionState>,
)
    ensures
        sp_process_parts(p1 + p2, conds) == match sp_process_parts(p1, conds) {
            Err(e) => Err(e),
            Ok(l1) => match sp_process_parts(p2, conds) {
                Err(e) => Err(e),
                Ok(l2) => Ok(l1 + l2),
            },
        },
    decreases p1.len(),
{
    if p1.len() == 0 {
        assert(p1 + p2 =~= p2);
        match sp_process_parts(p2, conds) {
            Ok(l2) => {
                assert(Seq::<SpecConditionText>::empty() + l2 =~= l2);
            },
            Err(_) => {},
        }
    } else {
        lemma_process_parts_append(p1.drop_first(), p2, conds);
        assert((p1 + p2)[0] == p1[0]);
        assert((p1 + p2).drop_first() =~= p1.drop_first() + p2);
        match sp_process_part(p1[0], conds) {
            Err(_) => {},
            Ok(h) => {
                match sp_process_parts(p1.drop_first(), conds) {
                    Err(_) => {},
                    Ok(r1) => {
                        match sp_process_parts(p2, conds) {
                            Err(_) => {},
                            Ok(l2) => {
                                assert(h + (r1 + l2) =~= (h + r1) + l2);
                            },
                        }
                    },
                }
            },
        }
    }
}

/// Order preservation over branch items.
pub proof fn lemma_process_thens_append(
    t1: Seq<SpecIfElseThen>,
    t2: Seq<SpecIfElseThen>,
    conds: Seq<ConditionState>,
)
    ensures
        sp_process_thens(t1 + t2, conds) == match sp_process_thens(t1, conds) {
            Err(e) => Err(e),
            Ok(l1) => match sp_process_thens(t2, conds) {
                Err(e) => Err(e),
                Ok(l2) => Ok(l1 + l2),
            },
        },
    decreases t1.len(),
{
    if t1.len() == 0 {
        assert(t1 + t2 =~= t2);
        match sp_process_thens(t2, conds) {
            Ok(l2) => {
                assert(Seq::<SpecConditionText>::empty() + l2 =~= l2);
            },
            Err(_) => {},
        }
    } else {
        lemma_process_thens_append(t1.drop_first(), t2, conds);
        assert((t1 + t2)[0] == t1[0]);
        assert((t1 + t2).drop_first() =~= t1.drop_first() + t2);
        match sp_process_then(t1[0], conds) {
            Err(_) => {},
            Ok(h) => {
                match sp_process_thens(t1.drop_first(), conds) {
                    Err(_) => {},
                    Ok(r1) => {
                        match sp_process_thens(t2, conds) {
                            Err(_) => {},
                            Ok(l2) => {
                                assert(h + (r1 + l2) =~= (h + r1) + l2);
                            },
                        }
                    },
                }
            },
        }
    }
}

/// Reduction of a single message part, as a list.
pub proof fn lemma_process_parts_singleton(p: SpecMessagePart, conds: Seq<ConditionState>)
    ensures
        sp_process_parts(seq![p], conds) == match sp_process_part(p, conds) {
            Err(e) => Err::<Seq<SpecConditionText>, SpecProcessError>(e),
            Ok(l) => Ok(l),
        },
{
    reveal_with_fuel(sp_process_parts, 2);
    let s = seq![p];
    assert(s[0] == p);
    assert(s.drop_first() =~= Seq::<SpecMessagePart>::empty());
    match sp_process_part(p, conds) {
        Err(_) => {},
        Ok(l) => {
            assert(l + Seq::<SpecConditionText>::empty() =~= l);
        },
    }
}

/// Reduction of a single branch item, as a list.
pub proof fn lemma_process_thens_singleton(th: SpecIfElseThen, conds: Seq<ConditionState>)
    ensures
        sp_process_thens(seq![th], conds) == match sp_process_then(th, conds) {
            Err(e) => Err::<Seq<SpecConditionText>, SpecProcessError>(e),
            Ok(l) => Ok(l),
        },
{
    reveal_with_fuel(sp_process_thens, 2);
    let s = seq![th];
    assert(s[0] == th);
    assert(s.drop_first() =~= Seq::<SpecIfElseThen>::empty());
    match sp_process_then(th, conds) {
        Err(_) => {},
        Ok(l) => {
            assert(l + Seq::<SpecConditionText>::empty() =~= l);
        },
    }
}

// ---------------------------------------------------------------------------
// Every emitted entry extends the accumulated conditions: the input
// condition list is a prefix of each entry's condition list.
// ---------------------------------------------------------------------------

/// Does every entry of `l` carry `conds` as a prefix of its conditions?
pub open spec fn sp_all_extend(l: Seq<SpecConditionText>, conds: Seq<ConditionState>) -> bool {
    forall|k: int|
        0 <= k < l.len() ==> {
            &&& (#[trigger] l[k]).conds.len() >= conds.len()
            &&& l[k].conds.subrange(0, conds.len() as int) == conds
        }
}

pub proof fn lemma_process_parts_extend(parts: Seq<SpecMessagePart>, conds: Seq<ConditionState>)
    ensures
        sp_process_parts(parts, conds) matches Ok(l) ==> sp_all_extend(l, conds),
    decreases parts, 1int,
{
    if parts.len() > 0 {
        lemma_process_part_extend(parts[0], conds);
        lemma_process_parts_extend(parts.drop_first(), conds);
    }
}

pub proof fn lemma_process_part_extend(p: SpecMessagePart, conds: Seq<ConditionState>)
    ensures
        sp_process_part(p, conds) matches Ok(l) ==> sp_all_extend(l, conds),
    decreases p, 1int,
{
    match p {
        SpecMessagePart::Text(t) => {
            assert(seq![SpecConditionText { conds, text: SpecText::Static(t) }][0].conds.subrange(
                0,
                conds.len() as int,
            ) =~= conds);
        },
        SpecMessagePart::Element(e) => {
            lemma_process_element_extend(e, conds);
        },
    }
}

pub proof fn lemma_process_element_extend(e: SpecElement, conds: Seq<ConditionState>)
    ensures
        sp_process_element(e, conds) matches Ok(l) ==> sp_all_extend(l, conds),
    decreases e, 1int,
{
    match e {
        SpecElement::IfElse(ie) => {
            lemma_process_if_else_extend(ie, conds);
        },
        SpecElement::Tag(t, _s) => {
            lemma_process_tag_extend(t, conds);
        },
    }
}

pub proof fn lemma_process_tag_extend(t: SpecTag, conds: Seq<ConditionState>)
    ensures
        sp_process_tag(t, conds) matches Ok(l) ==> sp_all_extend(l, conds),
    decreases t, 1int,
{
    if t.name == TagName::Clickable && t.params.len() == 1 {
        lemma_process_param_extend(t.params[0], conds);
    } else {
        match sp_dyn_of_tag(t) {
            Some(d) => {
                assert(seq![SpecConditionText { conds, text: SpecText::Dynamic(d) }][0]
                    .conds.subrange(0, conds.len() as int) =~= conds);
            },
            None => {},
        }
    }
}

pub proof fn lemma_process_param_extend(p: SpecParam, conds: Seq<ConditionState>)
    ensures
        sp_process_param(p, conds) matches Ok(l) ==> sp_all_extend(l, conds),
    decreases p, 1int,
{
    match p {
        SpecParam::Element(e) => {
            lemma_process_element_extend(e, conds);
        },
        SpecParam::Function(f) => {
            lemma_process_function_extend(f, conds);
        },
        _ => {},
    }
}

pub proof fn lemma_process_function_extend(f: SpecFunction, conds: Seq<ConditionState>)
    ensures
        sp_process_function(f, conds) matches Ok(l) ==> sp_all_extend(l, conds),
{
    match sp_process_function(f, conds) {
        Ok(l) => {
            assert(l[0].conds.subrange(0, conds.len() as int) =~= conds);
        },
        Err(_) => {},
    }
}

pub proof fn lemma_process_if_else_extend(ie: SpecIfElse, conds: Seq<ConditionState>)
    ensures
        sp_process_if_else(ie, conds) matches Ok(l) ==> sp_all_extend(l, conds),
    decreases ie, 1int,
{
    match sp_cond_of_if_param(ie.if_cond) {
        None => {},
        Some(c) => {
            let if_conds = conds.push(ConditionState { cond: c, is_true: true });
            let else_conds = conds.push(ConditionState { cond: c, is_true: false });
            lemma_process_thens_extend(ie.if_then, if_conds);
            lemma_process_thens_extend(ie.else_then, else_conds);
            assert(if_conds.subrange(0, conds.len() as int) =~= conds);
            assert(else_conds.subrange(0, conds.len() as int) =~= conds);
            match sp_process_thens(ie.if_then, if_conds) {
                Ok(l1) => {
                    match sp_process_thens(ie.else_then, else_conds) {
                        Ok(l2) => {
                            assert forall|k: int| 0 <= k < (l1 + l2).len() implies {
                                &&& ((l1 + l2)[k]).conds.len() >= conds.len()
                                &&& (l1 + l2)[k].conds.subrange(0, conds.len() as int) == conds
                            } by {
                                if k < l1.len() {
                                    assert((l1 + l2)[k] == l1[k]);
                                    assert(l1[k].conds.subrange(0, if_conds.len() as int)
                                        == if_conds);
                                    assert(l1[k].conds.subrange(0, conds.len() as int) =~= conds);
                                } else {
                                    assert((l1 + l2)[k] == l2[k - l1.len()]);
                                    assert(l2[k - l1.len()].conds.subrange(
                                        0,
                                        else_conds.len() as int,
                                    ) == else_conds);
                                    assert(l2[k - l1.len()].conds.subrange(0, conds.len() as int)
                                        =~= conds);
                                }
                            }
                        },
                        Err(_) => {},
                    }
                },
                Err(_) => {},
            }
        },
    }
}

pub proof fn lemma_process_thens_extend(ts: Seq<SpecIfElseThen>, conds: Seq<ConditionState>)
    ensures
        sp_process_thens(ts, conds) matches Ok(l) ==> sp_all_extend(l, conds),
    decreases ts, 1int,
{
    if ts.len() > 0 {
        lemma_process_then_extend(ts[0], conds);
        lemma_process_thens_extend(ts.drop_first(), conds);
    }
}

pub proof fn lemma_process_then_extend(th: SpecIfElseThen, conds: Seq<ConditionState>)
    ensures
        sp_process_then(th, conds) matches Ok(l) ==> sp_all_extend(l, conds),
    decreases th, 1int,
{
    match th {
        SpecIfElseThen::Function(f) => {
            lemma_process_function_extend(f, conds);
        },
        SpecIfElseThen::Element(e) => {
            lemma_process_element_extend(e, conds);
        },
        SpecIfElseThen::Text(t) => {
            assert(seq![SpecConditionText { conds, text: SpecText::Static(t) }][0].conds.subrange(
                0,
                conds.len() as int,
            ) =~= conds);
        },
    }
}


// ---------------------------------------------------------------------------
// The executable reduction. Each `process` method returns exactly what the
// mathematical reduction says for its node.
// ---------------------------------------------------------------------------

/// Does the executable result denote the mathematical one?
pub open spec fn sp_result_matches(
    r: Result<Vec<ConditionText>, EmoteTextProcessError>,
    s: Result<Seq<SpecConditionText>, SpecProcessError>,
) -> bool {
    match r {
        Ok(v) => s matches Ok(l) && view_condition_texts(v@) == l,
        Err(e) => s matches Err(se) && e@ == se,
    }
}

/// The pointwise view distributes over concatenation.
pub proof fn lemma_view_condition_texts_append(a: Seq<ConditionText>, b: Seq<ConditionText>)
    ensures
        view_condition_texts(a + b) == view_condition_texts(a) + view_condition_texts(b),
{
    assert(view_condition_texts(a + b) =~= view_condition_texts(a) + view_condition_texts(b));
}

fn copy_conds(v: &Vec<ConditionState>) -> (r: Vec<ConditionState>)
    ensures
        r@ == v@,
{
    let r = v.clone();
    proof {
        assert forall|i: int| 0 <= i < v@.len() implies r@[i] == v@[i] by {
            assert(cloned::<ConditionState>(v[i], r[i]));
        }
        assert(r@ =~= v@);
    }
    r
}

impl Function {
    /// Reduce a function leaf: it either denotes dynamic text or is
    /// rejected, as the mathematical reduction says.
    pub fn process(&self, conds: Vec<ConditionState>) -> (r: Result<
        Vec<ConditionText>,
        EmoteTextProcessError,
    >)
        ensures
            sp_result_matches(r, sp_process_function(self@, conds@)),
    {
        match self.name {
            FuncName::Equal => Err(EmoteTextProcessError::DanglingFunction { name: self.name }),
            FuncName::PlayerParameter => Err(
                EmoteTextProcessError::DanglingFunction { name: self.name },
            ),
            FuncName::ObjectParameter => {
                match DynamicText::try_from_function(self.clone()) {
                    Ok(d) => {
                        let out = vec![ConditionText { conds, text: Text::Dynamic(d) }];
                        proof {
                            assert(view_condition_texts(out@) =~= seq![
                                view_condition_text(out@[0]),
                            ]);
                        }
                        Ok(out)
                    },
                    Err(e) => Err(EmoteTextProcessError::DynamicTextError(e)),
                }
            },
        }
    }
}

impl Tag {
    /// Reduce a tag leaf. A `Clickable` wrapper around a single parameter is
    /// transparent; every other tag must denote dynamic text.
    pub fn process(&self, conds: Vec<ConditionState>) -> (r: Result<
        Vec<ConditionText>,
        EmoteTextProcessError,
    >)
        ensures
            sp_result_matches(r, sp_process_tag(self@, conds@)),
        decreases *self, 1int,
    {
        proof {
            lemma_view_params_pointwise(self.params@);
        }
        if matches!(self.name, TagName::Clickable) && self.params.len() == 1 {
            let p = &self.params[0];
            p.process(conds)
        } else {
            match DynamicText::try_from_tag(self.clone()) {
                Ok(d) => {
                    let out = vec![ConditionText { conds, text: Text::Dynamic(d) }];
                    proof {
                        assert(view_condition_texts(out@) =~= seq![view_condition_text(out@[0])]);
                    }
                    Ok(out)
                },
                Err(e) => Err(EmoteTextProcessError::DynamicTextError(e)),
            }
        }
    }
}

impl Param {
    /// Reduce a parameter reached as a leaf: elements and functions reduce;
    /// bare literals are rejected.
    pub fn process(&self, conds: Vec<ConditionState>) -> (r: Result<
        Vec<ConditionText>,
        EmoteTextProcessError,
    >)
        ensures
            sp_result_matches(r, sp_process_param(view_param(*self), conds@)),
        decreases *self, 2int,
    {
        match self {
            Param::Element(e) => e.process(conds),
            Param::Function(f) => f.process(conds),
            Param::Obj(o) => Err(EmoteTextProcessError::UnexpectedObj { name: *o }),
            Param::Num(n) => Err(EmoteTextProcessError::UnexpectedNum { value: *n }),
        }
    }
}

impl Element {
    /// Reduce an element: an if-else construct or a tag leaf.
    pub fn process(&self, conds: Vec<ConditionState>) -> (r: Result<
        Vec<ConditionText>,
        EmoteTextProcessError,
    >)
        ensures
            sp_result_matches(r, sp_process_element(view_element(*self), conds@)),
        decreases *self, 2int,
    {
        match self {
            Element::IfElse(ie) => (**ie).process(conds),
            Element::Tag(t, _s) => t.process(conds),
        }
    }
}

/// Reduce every item of one branch under the same accumulated conditions,
/// concatenating the results in order.
fn process_thens(thens: &Vec<IfElseThen>, conds: &Vec<ConditionState>) -> (r: Result<
    Vec<ConditionText>,
    EmoteTextProcessError,
>)
    ensures
        sp_result_matches(r, sp_process_thens(view_thens(thens@), conds@)),
    decreases *thens, 3int,
{
    let ghost vt = view_thens(thens@);
    proof {
        lemma_view_thens_pointwise(thens@);
    }
    let mut res: Vec<ConditionText> = Vec::new();
    let mut i: usize = 0;
    proof {
        assert(vt.subrange(0, 0) =~= Seq::<SpecIfElseThen>::empty());
        assert(view_condition_texts(res@) =~= Seq::<SpecConditionText>::empty());
    }
    while i < thens.len()
        invariant
            i <= thens.len(),
            vt == view_thens(thens@),
            vt.len() == thens@.len(),
            forall|k: int| 0 <= k < thens@.len() ==> vt[k] == view_then(thens@[k]),
            sp_process_thens(vt.subrange(0, i as int), conds@) == Ok::<
                Seq<SpecConditionText>,
                SpecProcessError,
            >(view_condition_texts(res@)),
        decreases thens.len() - i,
    {
        let ghost res_before = res@;
        let part_res: Result<Vec<ConditionText>, EmoteTextProcessError> = match &thens[i] {
            IfElseThen::Function(f) => f.process(copy_conds(conds)),
            IfElseThen::Element(e) => e.process(copy_conds(conds)),
            IfElseThen::Text(t) => {
                let out = vec![
                    ConditionText { conds: copy_conds(conds), text: Text::Static(t.clone()) },
                ];
                proof {
                    assert(view_condition_texts(out@) =~= seq![view_condition_text(out@[0])]);
                }
                Ok(out)
            },
        };
        proof {
            assert(sp_result_matches(part_res, sp_process_then(vt[i as int], conds@)));
        }
        match part_res {
            Err(e) => {
                proof {
                    let tail = vt.subrange(i as int, vt.len() as int);
                    assert(vt =~= vt.subrange(0, i as int) + tail);
                    lemma_process_thens_append(vt.subrange(0, i as int), tail, conds@);
                    assert(tail[0] == vt[i as int]);
                }
                return Err(e);
            },
            Ok(mut v) => {
                proof {
                    lemma_process_thens_append(vt.subrange(0, i as int), seq![vt[i as int]], conds@);
                    lemma_process_thens_singleton(vt[i as int], conds@);
                    assert(vt.subrange(0, i as int) + seq![vt[i as int]] =~= vt.subrange(
                        0,
                        i as int + 1,
                    ));
                    lemma_view_condition_texts_append(res_before, v@);
                }
                res.append(&mut v);
                i += 1;
            },
        }
    }
    proof {
        assert(vt.subrange(0, thens@.len() as int) =~= vt);
    }
    Ok(res)
}

impl IfElse {
    /// Reduce an if-else construct: resolve the condition, then reduce both
    /// branches, the if-branch under the condition required true and the
    /// else-branch under it required false, if-branch results first.
    pub fn process(&self, conds: Vec<ConditionState>) -> (r: Result<
        Vec<ConditionText>,
        EmoteTextProcessError,
    >)
        ensures
            sp_result_matches(r, sp_process_if_else(view_if_else(*self), conds@)),
        decreases *self, 4int,
    {
        let if_cond = match Condition::try_from(&self.if_cond) {
            Ok(c) => c,
            Err(e) => {
                return Err(EmoteTextProcessError::ConditionError(e));
            },
        };
        let mut if_conds = copy_conds(&conds);
        if_conds.push(ConditionState { cond: if_cond, is_true: true });
        let mut else_conds = conds;
        else_conds.push(ConditionState { cond: if_cond, is_true: false });
        let mut res = match process_thens(&self.if_then, &if_conds) {
            Ok(v) => v,
            Err(e) => {
                return Err(e);
            },
        };
        let ghost res1 = res@;
        let mut res2 = match process_thens(&self.else_then, &else_conds) {
            Ok(v) => v,
            Err(e) => {
                return Err(e);
            },
        };
        proof {
            lemma_view_condition_texts_append(res1, res2@);
        }
        res.append(&mut res2);
        Ok(res)
    }
}

impl MessagePart {
    /// Reduce one message part: plain text becomes one entry under the
    /// accumulated conditions; an element reduces recursively.
    pub fn process(&self, conds: Vec<ConditionState>) -> (r: Result<
        Vec<ConditionText>,
        EmoteTextProcessError,
    >)
        ensures
            sp_result_matches(r, sp_process_part(view_part(*self), conds@)),
        decreases *self, 3int,
    {
        match self {
            MessagePart::Element(e) => e.process(conds),
            MessagePart::Text(t) => {
                let out = vec![ConditionText { conds, text: Text::Static(t.clone()) }];
                proof {
                    assert(view_condition_texts(out@) =~= seq![view_condition_text(out@[0])]);
                }
                Ok(out)
            },
        }
    }
}

impl Message {
    /// Reduce a whole message into its ordered list of (condition-set, text)
    /// pairs, exactly as the mathematical reduction says. The result is the
    /// reusable artifact: it can be evaluated against any number of oracles
    /// without parsing again.
    pub fn process_string(&self) -> (r: Result<
        super::condition_texts::ConditionTexts,
        EmoteTextProcessError,
    >)
        ensures
            match r {
                Ok(ct) => sp_process_message(self@) matches Ok(l) && ct@ == l,
                Err(e) => sp_process_message(self@) matches Err(se) && e@ == se,
            },
    {
        let ghost vp = view_parts(self.0@);
        proof {
            lemma_view_parts_pointwise(self.0@);
        }
        let empty_conds: Vec<ConditionState> = Vec::new();
        let mut res: Vec<ConditionText> = Vec::new();
        let mut i: usize = 0;
        proof {
            assert(vp.subrange(0, 0) =~= Seq::<SpecMessagePart>::empty());
            assert(view_condition_texts(res@) =~= Seq::<SpecConditionText>::empty());
        }
        while i < self.0.len()
            invariant
                i <= self.0.len(),
                vp == view_parts(self.0@),
                vp.len() == self.0@.len(),
                forall|k: int| 0 <= k < self.0@.len() ==> vp[k] == view_part(self.0@[k]),
                empty_conds@ == Seq::<ConditionState>::empty(),
                sp_process_parts(vp.subrange(0, i as int), Seq::empty()) == Ok::<
                    Seq<SpecConditionText>,
                    SpecProcessError,
                >(view_condition_texts(res@)),
            decreases self.0.len() - i,
        {
            let ghost res_before = res@;
            let part_res = self.0[i].process(copy_conds(&empty_conds));
            match part_res {
                Err(e) => {
                    proof {
                        let tail = vp.subrange(i as int, vp.len() as int);
                        assert(vp =~= vp.subrange(0, i as int) + tail);
                        lemma_process_parts_append(vp.subrange(0, i as int), tail, Seq::empty());
                        assert(tail[0] == vp[i as int]);
                    }
                    return Err(e);
                },
                Ok(mut v) => {
                    proof {
                        lemma_process_parts_append(
                            vp.subrange(0, i as int),
                            seq![vp[i as int]],
                            Seq::empty(),
                        );
                        lemma_process_parts_singleton(vp[i as int], Seq::empty());
                        assert(vp.subrange(0, i as int) + seq![vp[i as int]] =~= vp.subrange(
                            0,
                            i as int + 1,
                        ));
                        lemma_view_condition_texts_append(res_before, v@);
                    }
                    res.append(&mut v);
                    i += 1;
                },
            }
        }
        proof {
            assert(vp.subrange(0, self.0@.len() as int) =~= vp);
        }
        Ok(super::condition_texts::ConditionTexts::new(res))
    }
}

} // verus!
