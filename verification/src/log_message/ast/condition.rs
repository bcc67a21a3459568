//! Known conditions and dynamic text slots derived from functions and tags in
//! log messages, and the participant-aware oracle that answers them.

use vstd::prelude::*;

pub use crate::log_message::types::Gender;

use super::types::{
    view_function, view_param, view_tag, FuncName, Function, IfParam, Obj, Param, SpecFunction,
    SpecIfParam, SpecParam, SpecTag, Tag, TagName,
};
use super::types::lemma_view_params_pointwise;

verus! {

/// A boolean fact about the participants of a message, derived from a
/// specific call shape. Should only appear as the condition of an if-else.
#[derive(Debug, Clone, Copy, PartialEq, Eq, Structural)]
pub enum Condition {
    /// The current player character is the origin of the message:
    /// `Equal(ObjectParameter(1),ObjectParameter(2))`.
    IsSelfOrigin,
    /// The current player character is the target of the message:
    /// `Equal(ObjectParameter(1),ObjectParameter(3))`.
    IsSelfTarget,
    /// The origin of the message is female:
    /// `<Sheet(BNpcName,PlayerParameter(7),6)/>`.
    IsOriginFemale,
    /// The origin of the message is female when not a player:
    /// `PlayerParameter(5)`.
    IsOriginFemaleNpc,
    /// The origin of the message is a player: `PlayerParameter(7)`.
    IsOriginPlayer,
    /// The target of the message is a player: `PlayerParameter(8)`.
    IsTargetPlayer,
}

/// A participant-dependent text slot, derived from a specific call shape.
/// Should only appear as a text leaf of a message.
#[derive(Debug, Clone, Copy, PartialEq, Eq, Structural)]
pub enum DynamicText {
    /// The name of the origin when not a player: `ObjectParameter(2)`.
    NpcOriginName,
    /// The name of the target when not a player: `ObjectParameter(3)`.
    NpcTargetName,
    /// The EN name of the origin: `<SheetEn(ObjStr,2,PlayerParameter(7),1,1)/>`.
    PlayerOriginNameEn,
    /// The EN name of the target: `<SheetEn(ObjStr,2,PlayerParameter(8),1,1)/>`.
    PlayerTargetNameEn,
    /// The JP name of the origin: `<Sheet(ObjStr,PlayerParameter(7),0)/>`.
    PlayerOriginNameJp,
    /// The JP name of the target: `<Sheet(ObjStr,PlayerParameter(8),0)/>`.
    PlayerTargetNameJp,
}

/// An oracle that resolves a [`Condition`] to a boolean.
pub trait ConditionAnswer {
    /// The answer this oracle gives for `cond`, as a mathematical function.
    spec fn spec_as_bool(&self, cond: Condition) -> bool;

    /// Resolve `cond` against this oracle.
    fn as_bool(&self, cond: &Condition) -> (b: bool)
        ensures
            b == self.spec_as_bool(*cond),
    ;
}

/// An oracle that resolves a [`DynamicText`] slot to a string.
pub trait DynamicTextAnswer {
    /// The text this oracle gives for `text`, as a mathematical function.
    spec fn spec_as_string(&self, text: DynamicText) -> Seq<char>;

    /// Resolve `text` against this oracle.
    fn as_string(&self, text: &DynamicText) -> (s: String)
        ensures
            s@ == self.spec_as_string(*text),
    ;
}

/// A full participant-aware oracle.
pub trait Answers: ConditionAnswer + DynamicTextAnswer {

}

/// One participant of a message.
#[derive(Debug, Clone)]
pub struct Character {
    pub name: String,
    pub gender: Gender,
    pub is_pc: bool,
    pub is_self: bool,
}

/// Field-wise equality of two characters.
pub open spec fn spec_char_eq(a: Character, b: Character) -> bool {
    a.name@ == b.name@ && a.gender == b.gender && a.is_pc == b.is_pc && a.is_self == b.is_self
}

impl PartialEq for Character {
    fn eq(&self, other: &Character) -> (r: bool) {
        self.name == other.name && self.gender == other.gender && self.is_pc == other.is_pc
            && self.is_self == other.is_self
    }
}

impl vstd::std_specs::cmp::PartialEqSpecImpl for Character {
    open spec fn obeys_eq_spec() -> bool {
        true
    }

    open spec fn eq_spec(&self, other: &Character) -> bool {
        spec_char_eq(*self, *other)
    }
}

impl Eq for Character {

}

impl Character {
    /// Build a character from plain facts about it.
    pub fn new(name: &str, gender: Gender, is_pc: bool, is_self: bool) -> (c: Character)
        ensures
            c.name@ == name@,
            c.gender == gender,
            c.is_pc == is_pc,
            c.is_self == is_self,
    {
        Character { name: name.to_owned(), gender, is_pc, is_self }
    }
}

/// The default oracle: answers from the origin and target characters.
#[derive(Debug, Clone)]
pub struct LogMessageAnswers {
    origin_character: Character,
    target_character: Character,
}

/// Error building a [`LogMessageAnswers`].
#[derive(Debug, Clone, PartialEq, Eq, Structural)]
pub enum LogMessageAnswersError {
    /// Two distinct characters were both flagged as the current player.
    MultipleSelves,
}

impl LogMessageAnswers {
    /// Build an oracle for one (origin, target) pair. Rejected if both are
    /// flagged as the current player but are not the same character.
    pub fn new(origin_character: Character, target_character: Character) -> (r: Result<
        LogMessageAnswers,
        LogMessageAnswersError,
    >)
        ensures
            match r {
                Ok(a) => {
                    &&& spec_char_eq(a.origin(), origin_character)
                    &&& spec_char_eq(a.target(), target_character)
                    &&& !(origin_character.is_self && target_character.is_self && !spec_char_eq(
                        origin_character,
                        target_character,
                    ))
                },
                Err(e) => {
                    &&& e == LogMessageAnswersError::MultipleSelves
                    &&& origin_character.is_self
                    &&& target_character.is_self
                    &&& !spec_char_eq(origin_character, target_character)
                },
            },
    {
        if origin_character.is_self && target_character.is_self && origin_character
            != target_character {
            Err(LogMessageAnswersError::MultipleSelves)
        } else {
            Ok(LogMessageAnswers { origin_character, target_character })
        }
    }

    /// The origin character this oracle answers for.
    pub closed spec fn origin(&self) -> Character {
        self.origin_character
    }

    /// The target character this oracle answers for.
    pub closed spec fn target(&self) -> Character {
        self.target_character
    }

    pub fn origin_character(&self) -> (c: &Character)
        ensures
            c == &self.origin(),
    {
        &self.origin_character
    }

    pub fn target_character(&self) -> (c: &Character)
        ensures
            c == &self.target(),
    {
        &self.target_character
    }
}

impl ConditionAnswer for LogMessageAnswers {
    open spec fn spec_as_bool(&self, cond: Condition) -> bool {
        match cond {
            Condition::IsSelfOrigin => self.origin().is_self,
            Condition::IsSelfTarget => self.target().is_self,
            Condition::IsOriginFemale => self.origin().gender is Female,
            Condition::IsOriginFemaleNpc => self.origin().gender is Female,
            Condition::IsOriginPlayer => self.origin().is_pc,
            Condition::IsTargetPlayer => self.target().is_pc,
        }
    }

    fn as_bool(&self, cond: &Condition) -> (b: bool)
        ensures
            b == self.spec_as_bool(*cond),
    {
        match cond {
            Condition::IsSelfOrigin => self.origin_character.is_self,
            Condition::IsSelfTarget => self.target_character.is_self,
            Condition::IsOriginFemale | Condition::IsOriginFemaleNpc => matches!(
                self.origin_character.gender,
                Gender::Female
            ),
            Condition::IsOriginPlayer => self.origin_character.is_pc,
            Condition::IsTargetPlayer => self.target_character.is_pc,
        }
    }
}

impl DynamicTextAnswer for LogMessageAnswers {
    open spec fn spec_as_string(&self, text: DynamicText) -> Seq<char> {
        match text {
            DynamicText::NpcOriginName => self.origin().name@,
            DynamicText::PlayerOriginNameEn => self.origin().name@,
            DynamicText::PlayerOriginNameJp => self.origin().name@,
            DynamicText::NpcTargetName => self.target().name@,
            DynamicText::PlayerTargetNameEn => self.target().name@,
            DynamicText::PlayerTargetNameJp => self.target().name@,
        }
    }

    fn as_string(&self, text: &DynamicText) -> (s: String)
        ensures
            s@ == self.spec_as_string(*text),
    {
        match text {
            DynamicText::NpcOriginName
            | DynamicText::PlayerOriginNameEn
            | DynamicText::PlayerOriginNameJp => self.origin_character.name.clone(),
            DynamicText::NpcTargetName
            | DynamicText::PlayerTargetNameEn
            | DynamicText::PlayerTargetNameJp => self.target_character.name.clone(),
        }
    }
}

impl Answers for LogMessageAnswers {

}

// ---------------------------------------------------------------------------
// The semantic table: which exact call shapes denote which condition or
// dynamic text. This table is closed; everything else is an error.
// ---------------------------------------------------------------------------

/// The node a resolution error originated from.
#[derive(Debug, Clone)]
pub enum Origin {
    Function(Function),
    Tag(Tag),
}

/// Model of [`Origin`].
pub enum SpecOrigin {
    Function(SpecFunction),
    Tag(SpecTag),
}

pub open spec fn view_origin(o: Origin) -> SpecOrigin {
    match o {
        Origin::Function(f) => SpecOrigin::Function(view_function(f)),
        Origin::Tag(t) => SpecOrigin::Tag(view_tag(t)),
    }
}

impl View for Origin {
    type V = SpecOrigin;

    open spec fn view(&self) -> SpecOrigin {
        view_origin(*self)
    }
}

/// A call shape used as an if-condition was not in the table.
#[derive(Debug, Clone)]
pub struct ConditionError(pub Origin);

impl View for ConditionError {
    type V = SpecOrigin;

    open spec fn view(&self) -> SpecOrigin {
        view_origin(self.0)
    }
}

/// A call shape used as a text leaf was not in the table.
#[derive(Debug, Clone)]
pub struct DynamicTextError(pub Origin);

impl View for DynamicTextError {
    type V = SpecOrigin;

    open spec fn view(&self) -> SpecOrigin {
        view_origin(self.0)
    }
}

/// Does `p` denote the call `ObjectParameter(n)`?
pub open spec fn sp_is_object_param(p: SpecParam, n: u32) -> bool {
    match p {
        SpecParam::Function(g) => {
            &&& g.name == FuncName::ObjectParameter
            &&& g.params.len() == 1
            &&& g.params[0] == SpecParam::Num(n)
        },
        _ => false,
    }
}

/// Does `p` denote the call `PlayerParameter(n)`?
pub open spec fn sp_is_player_param(p: SpecParam, n: u32) -> bool {
    match p {
        SpecParam::Function(g) => {
            &&& g.name == FuncName::PlayerParameter
            &&& g.params.len() == 1
            &&& g.params[0] == SpecParam::Num(n)
        },
        _ => false,
    }
}

/// The condition a function call denotes, if any.
pub open spec fn sp_cond_of_function(f: SpecFunction) -> Option<Condition> {
    match f.name {
        FuncName::Equal => {
            if f.params.len() == 2 && sp_is_object_param(f.params[0], 1) && sp_is_object_param(
                f.params[1],
                2,
            ) {
                Some(Condition::IsSelfOrigin)
            } else if f.params.len() == 2 && sp_is_object_param(f.params[0], 1)
                && sp_is_object_param(f.params[1], 3) {
                Some(Condition::IsSelfTarget)
            } else {
                None
            }
        },
        FuncName::ObjectParameter => None,
        FuncName::PlayerParameter => {
            if f.params.len() == 1 && f.params[0] == SpecParam::Num(7u32) {
                Some(Condition::IsOriginPlayer)
            } else if f.params.len() == 1 && f.params[0] == SpecParam::Num(8u32) {
                Some(Condition::IsTargetPlayer)
            } else if f.params.len() == 1 && f.params[0] == SpecParam::Num(5u32) {
                Some(Condition::IsOriginFemaleNpc)
            } else {
                None
            }
        },
    }
}

/// The condition a tag call denotes, if any.
pub open spec fn sp_cond_of_tag(t: SpecTag) -> Option<Condition> {
    match t.name {
        TagName::Clickable => None,
        TagName::Sheet => {
            if t.params.len() == 3 && t.params[0] == SpecParam::Obj(Obj::BNpcName)
                && sp_is_player_param(t.params[1], 7) && t.params[2] == SpecParam::Num(6u32) {
                Some(Condition::IsOriginFemale)
            } else {
                None
            }
        },
        TagName::SheetEn => None,
    }
}

/// The condition an if-parameter denotes, if any.
pub open spec fn sp_cond_of_if_param(p: SpecIfParam) -> Option<Condition> {
    match p {
        SpecIfParam::Function(f) => sp_cond_of_function(f),
        SpecIfParam::Tag(t) => sp_cond_of_tag(t),
    }
}

/// The dynamic text slot a function call denotes, if any.
pub open spec fn sp_dyn_of_function(f: SpecFunction) -> Option<DynamicText> {
    match f.name {
        FuncName::Equal => None,
        FuncName::ObjectParameter => {
            if f.params.len() == 1 && f.params[0] == SpecParam::Num(2u32) {
                Some(DynamicText::NpcOriginName)
            } else if f.params.len() == 1 && f.params[0] == SpecParam::Num(3u32) {
                Some(DynamicText::NpcTargetName)
            } else {
                None
            }
        },
        FuncName::PlayerParameter => None,
    }
}

/// The dynamic text slot a tag call denotes, if any.
pub open spec fn sp_dyn_of_tag(t: SpecTag) -> Option<DynamicText> {
    match t.name {
        TagName::Clickable => None,
        TagName::Sheet => {
            if t.params.len() == 3 && t.params[0] == SpecParam::Obj(Obj::ObjStr) && t.params[2]
                == SpecParam::Num(0u32) {
                if sp_is_player_param(t.params[1], 7) {
                    Some(DynamicText::PlayerOriginNameJp)
                } else if sp_is_player_param(t.params[1], 8) {
                    Some(DynamicText::PlayerTargetNameJp)
                } else {
                    None
                }
            } else {
                None
            }
        },
        TagName::SheetEn => {
            if t.params.len() == 5 && t.params[0] == SpecParam::Obj(Obj::ObjStr) && t.params[1]
                == SpecParam::Num(2u32) && t.params[3] == SpecParam::Num(1u32) && t.params[4]
                == SpecParam::Num(1u32) {
                if sp_is_player_param(t.params[2], 7) {
                    Some(DynamicText::PlayerOriginNameEn)
                } else if sp_is_player_param(t.params[2], 8) {
                    Some(DynamicText::PlayerTargetNameEn)
                } else {
                    None
                }
            } else {
                None
            }
        },
    }
}

// ---------------------------------------------------------------------------
// The executable resolvers.
// ---------------------------------------------------------------------------

/// Is `p` the call `ObjectParameter(n)`?
fn is_object_param(p: &Param, n: u32) -> (b: bool)
    ensures
        b == sp_is_object_param(view_param(*p), n),
{
    match p {
        Param::Function(g) => {
            proof {
                lemma_view_params_pointwise(g.params@);
            }
            match g.name {
                FuncName::ObjectParameter => {
                    if g.params.len() == 1 {
                        match &g.params[0] {
                            Param::Num(m) => *m == n,
                            _ => false,
                        }
                    } else {
                        false
                    }
                },
                _ => false,
            }
        },
        _ => false,
    }
}

/// Is `p` the call `PlayerParameter(n)`?
fn is_player_param(p: &Param, n: u32) -> (b: bool)
    ensures
        b == sp_is_player_param(view_param(*p), n),
{
    match p {
        Param::Function(g) => {
            proof {
                lemma_view_params_pointwise(g.params@);
            }
            match g.name {
                FuncName::PlayerParameter => {
                    if g.params.len() == 1 {
                        match &g.params[0] {
                            Param::Num(m) => *m == n,
                            _ => false,
                        }
                    } else {
                        false
                    }
                },
                _ => false,
            }
        },
        _ => false,
    }
}

/// Is `p` the bare number literal `n`?
fn is_num_param(p: &Param, n: u32) -> (b: bool)
    ensures
        b == (view_param(*p) == SpecParam::Num(n)),
{
    match p {
        Param::Num(m) => *m == n,
        _ => false,
    }
}

/// Is `p` the object literal `o`?
fn is_obj_param(p: &Param, o: Obj) -> (b: bool)
    ensures
        b == (view_param(*p) == SpecParam::Obj(o)),
{
    match p {
        Param::Obj(q) => *q == o,
        _ => false,
    }
}

impl Condition {
    /// Resolve a function call shape to the condition it denotes, or report
    /// the call as unknown.
    pub fn try_from_function(fun: &Function) -> (r: Result<Condition, ConditionError>)
        ensures
            match r {
                Ok(c) => sp_cond_of_function(fun@) == Some(c),
                Err(e) => {
                    &&& sp_cond_of_function(fun@) is None
                    &&& e@ == SpecOrigin::Function(fun@)
                },
            },
    {
        proof {
            lemma_view_params_pointwise(fun.params@);
        }
        let res: Option<Condition> = match fun.name {
            FuncName::Equal => {
                if fun.params.len() == 2 && is_object_param(&fun.params[0], 1) && is_object_param(
                    &fun.params[1],
                    2,
                ) {
                    Some(Condition::IsSelfOrigin)
                } else if fun.params.len() == 2 && is_object_param(&fun.params[0], 1)
                    && is_object_param(&fun.params[1], 3) {
                    Some(Condition::IsSelfTarget)
                } else {
                    None
                }
            },
            FuncName::ObjectParameter => None,
            FuncName::PlayerParameter => {
                if fun.params.len() == 1 && is_num_param(&fun.params[0], 7) {
                    Some(Condition::IsOriginPlayer)
                } else if fun.params.len() == 1 && is_num_param(&fun.params[0], 8) {
                    Some(Condition::IsTargetPlayer)
                } else if fun.params.len() == 1 && is_num_param(&fun.params[0], 5) {
                    Some(Condition::IsOriginFemaleNpc)
                } else {
                    None
                }
            },
        };
        match res {
            Some(c) => Ok(c),
            None => Err(ConditionError(Origin::Function(fun.clone()))),
        }
    }

    /// Resolve a tag call shape to the condition it denotes, or report the
    /// call as unknown.
    pub fn try_from_tag(tag: &Tag) -> (r: Result<Condition, ConditionError>)
        ensures
            match r {
                Ok(c) => sp_cond_of_tag(tag@) == Some(c),
                Err(e) => {
                    &&& sp_cond_of_tag(tag@) is None
                    &&& e@ == SpecOrigin::Tag(tag@)
                },
            },
    {
        proof {
            lemma_view_params_pointwise(tag.params@);
        }
        let res: Option<Condition> = match tag.name {
            TagName::Clickable => None,
            TagName::Sheet => {
                if tag.params.len() == 3 && is_obj_param(&tag.params[0], Obj::BNpcName)
                    && is_player_param(&tag.params[1], 7) && is_num_param(&tag.params[2], 6) {
                    Some(Condition::IsOriginFemale)
                } else {
                    None
                }
            },
            TagName::SheetEn => None,
        };
        match res {
            Some(c) => Ok(c),
            None => Err(ConditionError(Origin::Tag(tag.clone()))),
        }
    }

    /// Resolve an if-condition to the condition it denotes, or report the
    /// call as unknown.
    pub fn try_from(value: &IfParam) -> (r: Result<Condition, ConditionError>)
        ensures
            match r {
                Ok(c) => sp_cond_of_if_param(value@) == Some(c),
                Err(e) => {
                    &&& sp_cond_of_if_param(value@) is None
                    &&& e@ == match value@ {
                        SpecIfParam::Function(f) => SpecOrigin::Function(f),
                        SpecIfParam::Tag(t) => SpecOrigin::Tag(t),
                    }
                },
            },
    {
        match value {
            IfParam::Function(f) => Condition::try_from_function(f),
            IfParam::Tag(t) => Condition::try_from_tag(t),
        }
    }
}

impl DynamicText {
    /// Resolve a function call shape to the dynamic text slot it denotes, or
    /// report the call as unknown.
    pub fn try_from_function(fun: Function) -> (r: Result<DynamicText, DynamicTextError>)
        ensures
            match r {
                Ok(d) => sp_dyn_of_function(fun@) == Some(d),
                Err(e) => {
                    &&& sp_dyn_of_function(fun@) is None
                    &&& e@ == SpecOrigin::Function(fun@)
                },
            },
    {
        proof {
            lemma_view_params_pointwise(fun.params@);
        }
        let res: Option<DynamicText> = match fun.name {
            FuncName::Equal => None,
            FuncName::ObjectParameter => {
                if fun.params.len() == 1 && is_num_param(&fun.params[0], 2) {
                    Some(DynamicText::NpcOriginName)
                } else if fun.params.len() == 1 && is_num_param(&fun.params[0], 3) {
                    Some(DynamicText::NpcTargetName)
                } else {
                    None
                }
            },
            FuncName::PlayerParameter => None,
        };
        match res {
            Some(d) => Ok(d),
            None => Err(DynamicTextError(Origin::Function(fun))),
        }
    }

    /// Resolve a tag call shape to the dynamic text slot it denotes, or
    /// report the call as unknown.
    pub fn try_from_tag(tag: Tag) -> (r: Result<DynamicText, DynamicTextError>)
        ensures
            match r {
                Ok(d) => sp_dyn_of_tag(tag@) == Some(d),
                Err(e) => {
                    &&& sp_dyn_of_tag(tag@) is None
                    &&& e@ == SpecOrigin::Tag(tag@)
                },
            },
    {
        proof {
            lemma_view_params_pointwise(tag.params@);
        }
        let res: Option<DynamicText> = match tag.name {
            TagName::Clickable => None,
            TagName::Sheet => {
                if tag.params.len() == 3 && is_obj_param(&tag.params[0], Obj::ObjStr)
                    && is_num_param(&tag.params[2], 0) {
                    if is_player_param(&tag.params[1], 7) {
                        Some(DynamicText::PlayerOriginNameJp)
                    } else if is_player_param(&tag.params[1], 8) {
                        Some(DynamicText::PlayerTargetNameJp)
                    } else {
                        None
                    }
                } else {
                    None
                }
            },
            TagName::SheetEn => {
                if tag.params.len() == 5 && is_obj_param(&tag.params[0], Obj::ObjStr)
                    && is_num_param(&tag.params[1], 2) && is_num_param(&tag.params[3], 1)
                    && is_num_param(&tag.params[4], 1) {
                    if is_player_param(&tag.params[2], 7) {
                        Some(DynamicText::PlayerOriginNameEn)
                    } else if is_player_param(&tag.params[2], 8) {
                        Some(DynamicText::PlayerTargetNameEn)
                    } else {
                        None
                    }
                } else {
                    None
                }
            },
        };
        match res {
            Some(d) => Ok(d),
            None => Err(DynamicTextError(Origin::Tag(tag))),
        }
    }
}

// ---------------------------------------------------------------------------
// The table is closed: a call resolves if and only if it has one of the
// exact shapes written out below.
// ---------------------------------------------------------------------------

/// The exact function shapes that denote a condition.
pub open spec fn sp_condition_function_shape(f: SpecFunction) -> bool {
    ||| (f.name == FuncName::Equal && f.params.len() == 2 && sp_is_object_param(f.params[0], 1)
        && sp_is_object_param(f.params[1], 2))
    ||| (f.name == FuncName::Equal && f.params.len() == 2 && sp_is_object_param(f.params[0], 1)
        && sp_is_object_param(f.params[1], 3))
    ||| (f.name == FuncName::PlayerParameter && f.params.len() == 1 && f.params[0]
        == SpecParam::Num(7u32))
    ||| (f.name == FuncName::PlayerParameter && f.params.len() == 1 && f.params[0]
        == SpecParam::Num(8u32))
    ||| (f.name == FuncName::PlayerParameter && f.params.len() == 1 && f.params[0]
        == SpecParam::Num(5u32))
}

/// The exact tag shapes that denote a condition.
pub open spec fn sp_condition_tag_shape(t: SpecTag) -> bool {
    t.name == TagName::Sheet && t.params.len() == 3 && t.params[0] == SpecParam::Obj(Obj::BNpcName)
        && sp_is_player_param(t.params[1], 7) && t.params[2] == SpecParam::Num(6u32)
}

/// The exact function shapes that denote a dynamic text slot.
pub open spec fn sp_dynamic_function_shape(f: SpecFunction) -> bool {
    ||| (f.name == FuncName::ObjectParameter && f.params.len() == 1 && f.params[0]
        == SpecParam::Num(2u32))
    ||| (f.name == FuncName::ObjectParameter && f.params.len() == 1 && f.params[0]
        == SpecParam::Num(3u32))
}

/// The exact tag shapes that denote a dynamic text slot.
pub open spec fn sp_dynamic_tag_shape(t: SpecTag) -> bool {
    ||| (t.name == TagName::Sheet && t.params.len() == 3 && t.params[0] == SpecParam::Obj(
        Obj::ObjStr,
    ) && (sp_is_player_param(t.params[1], 7) || sp_is_player_param(t.params[1], 8)) && t.params[2]
        == SpecParam::Num(0u32))
    ||| (t.name == TagName::SheetEn && t.params.len() == 5 && t.params[0] == SpecParam::Obj(
        Obj::ObjStr,
    ) && t.params[1] == SpecParam::Num(2u32) && (sp_is_player_param(t.params[2], 7)
        || sp_is_player_param(t.params[2], 8)) && t.params[3] == SpecParam::Num(1u32)
        && t.params[4] == SpecParam::Num(1u32))
}

/// A call shape resolves to a condition exactly when it is one of the shapes
/// of the closed table; everything else is rejected.
pub proof fn lemma_condition_table_closed(f: SpecFunction, t: SpecTag)
    ensures
        sp_cond_of_function(f) is Some <==> sp_condition_function_shape(f),
        sp_cond_of_tag(t) is Some <==> sp_condition_tag_shape(t),
{
}

/// A call shape resolves to a dynamic text slot exactly when it is one of
/// the shapes of the closed table; everything else is rejected.
pub proof fn lemma_dynamic_text_table_closed(f: SpecFunction, t: SpecTag)
    ensures
        sp_dyn_of_function(f) is Some <==> sp_dynamic_function_shape(f),
        sp_dyn_of_tag(t) is Some <==> sp_dynamic_tag_shape(t),
{
}

} // verus!
