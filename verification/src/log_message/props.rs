//! Direct access to the participant data that the call shapes read: the
//! object table (who is involved) and the player table (player attributes).

use vstd::prelude::*;

use super::types::Gender;

verus! {

// ---------------------------------------------------------------------------
// Decimal rendering of indices, used in error reports.
// ---------------------------------------------------------------------------

/// The decimal digit character for `d` in `0..10`.
pub open spec fn sp_digit_char(d: int) -> char {
    if d == 0 {
        '0'
    } else if d == 1 {
        '1'
    } else if d == 2 {
        '2'
    } else if d == 3 {
        '3'
    } else if d == 4 {
        '4'
    } else if d == 5 {
        '5'
    } else if d == 6 {
        '6'
    } else if d == 7 {
        '7'
    } else if d == 8 {
        '8'
    } else {
        '9'
    }
}

/// The decimal form of a nonnegative number.
pub open spec fn sp_dec_chars(n: int) -> Seq<char>
    decreases n,
{
    if n < 10 {
        seq![sp_digit_char(n)]
    } else {
        sp_dec_chars(n / 10).push(sp_digit_char(n % 10))
    }
}

/// The one-character string for a digit.
fn digit_str(d: u32) -> (r: &'static str)
    requires
        d < 10,
    ensures
        r@ == seq![sp_digit_char(d as int)],
{
    proof {
        reveal_strlit("0");
        reveal_strlit("1");
        reveal_strlit("2");
        reveal_strlit("3");
        reveal_strlit("4");
        reveal_strlit("5");
        reveal_strlit("6");
        reveal_strlit("7");
        reveal_strlit("8");
        reveal_strlit("9");
    }
    let r = match d {
        0 => "0",
        1 => "1",
        2 => "2",
        3 => "3",
        4 => "4",
        5 => "5",
        6 => "6",
        7 => "7",
        8 => "8",
        _ => "9",
    };
    proof {
        assert(r@ =~= seq![sp_digit_char(d as int)]);
    }
    r
}

/// Render a number in decimal.
fn u32_to_string(n: u32) -> (s: String)
    ensures
        s@ == sp_dec_chars(n as int),
    decreases n,
{
    if n < 10 {
        String::from_str(digit_str(n))
    } else {
        let high = u32_to_string(n / 10);
        let r = high.concat(digit_str(n % 10));
        proof {
            assert(r@ =~= sp_dec_chars(n as int / 10).push(sp_digit_char(n as int % 10)));
        }
        r
    }
}

// ---------------------------------------------------------------------------
// The props and their errors.
// ---------------------------------------------------------------------------

/// Invalid parameters for a prop call: the prop's name and the offending
/// parameters, rendered for diagnosis.
#[derive(Debug, Clone)]
pub struct LogMessagePropError {
    pub name: &'static str,
    pub params: Vec<String>,
}

/// The involved characters: the current player, the origin and the target
/// of the message, as display names.
pub struct ObjectProp {
    pub me: String,
    pub origin: String,
    pub target: Option<String>,
}

impl ObjectProp {
    /// Generally used just to identify who the origin and target are, but
    /// used as-is when the origin is neither the current player nor any
    /// player.
    pub fn new(me: &str, origin: &str, target: Option<&str>) -> (r: ObjectProp)
        ensures
            r.me@ == me@,
            r.origin@ == origin@,
            match target {
                Some(t) => r.target matches Some(rt) && rt@ == t@,
                None => r.target is None,
            },
    {
        ObjectProp {
            me: me.to_owned(),
            origin: origin.to_owned(),
            target: match target {
                Some(t) => Some(t.to_owned()),
                None => None,
            },
        }
    }

    /// Look an object parameter up: 1 is the origin, 2 the current player,
    /// 3 the target (when there is one); everything else is rejected.
    fn at(&self, ind: u32) -> (r: Result<&String, LogMessagePropError>)
        ensures
            match r {
                Ok(s) => {
                    ||| (ind == 1 && s@ == self.origin@)
                    ||| (ind == 2 && s@ == self.me@)
                    ||| ({
                        &&& ind == 3
                        &&& self.target matches Some(t)
                        &&& s@ == t@
                    })
                },
                Err(e) => {
                    &&& (ind == 3 && self.target is None) || !(1 <= ind <= 3)
                    &&& e.name@ == "ObjectParameter"@
                    &&& e.params@.len() == 1
                    &&& e.params@[0]@ == sp_dec_chars(ind as int)
                },
            },
    {
        match ind {
            1 => Ok(&self.origin),
            2 => Ok(&self.me),
            3 => match &self.target {
                Some(t) => Ok(t),
                None => Err(
                    LogMessagePropError {
                        name: "ObjectParameter",
                        params: vec![u32_to_string(ind)],
                    },
                ),
            },
            _ => Err(
                LogMessagePropError { name: "ObjectParameter", params: vec![u32_to_string(ind)] },
            ),
        }
    }
}

/// A player reference, as the sheet calls use it.
#[derive(Debug, Clone, PartialEq, Eq)]
pub struct Player {
    pub name: String,
    pub world: String,
    /// Only the target's gender is currently read: in both supported
    /// languages the second-person pronoun is ungendered.
    pub gender: Gender,
}

/// The gender letter used in a player's display form.
pub open spec fn sp_gender_char(g: Gender) -> char {
    if g is Male {
        'M'
    } else {
        'F'
    }
}

/// A player's full display form: `name@world (G)`.
pub open spec fn sp_player_display(p: Player) -> Seq<char> {
    p.name@ + seq!['@'] + p.world@ + seq![' ', '('] + seq![sp_gender_char(p.gender)] + seq![')']
}

/// A player's name with world: `name@world`.
pub open spec fn sp_player_name_world(p: Player) -> Seq<char> {
    p.name@ + seq!['@'] + p.world@
}

impl Player {
    /// Build a player reference from plain facts.
    pub fn new(name: &str, world: &str, gender: Gender) -> (p: Player)
        ensures
            p.name@ == name@,
            p.world@ == world@,
            p.gender == gender,
    {
        Player { name: name.to_owned(), world: world.to_owned(), gender }
    }

    /// The display form `name@world (G)`.
    pub fn to_string(&self) -> (r: String)
        ensures
            r@ == sp_player_display(*self),
    {
        proof {
            reveal_strlit("@");
            reveal_strlit(" (");
            reveal_strlit(")");
            reveal_strlit("M");
            reveal_strlit("F");
        }
        let mut s = String::from_str(self.name.as_str());
        s.append("@");
        s.append(self.world.as_str());
        s.append(" (");
        let g = self.gender.to_string();
        s.append(g.as_str());
        s.append(")");
        proof {
            assert(s@ =~= sp_player_display(*self));
        }
        s
    }
}

/// What a player-parameter call returns: its type depends on the index.
#[derive(Debug, Clone, PartialEq, Eq)]
pub enum PParam<'a> {
    /// Indices 7 and 8: the origin or target player, when one exists.
    Player(Option<&'a Player>),
    /// Index 5: whether the origin is female when no player data applies.
    Bool(bool),
}

/// Does the borrowed option refer to exactly the stored one?
pub open spec fn sp_opt_player(o: Option<&Player>, q: Option<Player>) -> bool {
    match o {
        Some(a) => q matches Some(b) && *a == b,
        None => q is None,
    }
}

/// Player-related attributes of the participants.
pub struct PlayerProp {
    pub origin: Option<Player>,
    pub target: Option<Player>,
    pub player_gender: Gender,
}

impl PlayerProp {
    /// Build the player table: data on the origin and target when they are
    /// players, and the fallback gender used when no player data applies.
    pub fn new(origin: Option<Player>, target: Option<Player>, player_gender: Gender) -> (r:
        PlayerProp)
        ensures
            r.origin == origin,
            r.target == target,
            r.player_gender == player_gender,
    {
        PlayerProp { origin, target, player_gender }
    }

    /// Look a player parameter up: 7 is the origin player, 8 the target
    /// player, 5 the fallback gender test; everything else is rejected.
    fn at(&self, ind: u32) -> (r: Result<PParam, LogMessagePropError>)
        ensures
            match r {
                Ok(p) => {
                    ||| ({
                        &&& ind == 7
                        &&& p matches PParam::Player(o)
                        &&& sp_opt_player(o, self.origin)
                    })
                    ||| ({
                        &&& ind == 8
                        &&& p matches PParam::Player(o)
                        &&& sp_opt_player(o, self.target)
                    })
                    ||| (ind == 5 && p == PParam::Bool(self.player_gender is Female))
                },
                Err(e) => {
                    &&& !(ind == 5 || ind == 7 || ind == 8)
                    &&& e.name@ == "PlayerParameter"@
                    &&& e.params@.len() == 1
                    &&& e.params@[0]@ == sp_dec_chars(ind as int)
                },
            },
    {
        match ind {
            7 => Ok(PParam::Player(self.origin.as_ref())),
            8 => Ok(PParam::Player(self.target.as_ref())),
            5 => Ok(PParam::Bool(matches!(self.player_gender, Gender::Female))),
            _ => Err(
                LogMessagePropError { name: "PlayerParameter", params: vec![u32_to_string(ind)] },
            ),
        }
    }
}

/// `SheetEn` always takes `ObjStr` as its first parameter and is only used
/// to get a full player name; only the one parameter combination observed
/// in game data is accepted.
fn sheet_en(p1: u32, player: &Player, p3: u32, p4: u32) -> (r: Result<String, LogMessagePropError>)
    ensures
        match r {
            Ok(s) => {
                &&& p1 == 2 && p3 == 1 && p4 == 1
                &&& s@ == sp_player_name_world(*player)
            },
            Err(e) => {
                &&& !(p1 == 2 && p3 == 1 && p4 == 1)
                &&& e.name@ == "SheetEn"@
                &&& e.params@.len() == 4
                &&& e.params@[0]@ == sp_dec_chars(p1 as int)
                &&& e.params@[1]@ == sp_player_display(*player)
                &&& e.params@[2]@ == sp_dec_chars(p3 as int)
                &&& e.params@[3]@ == sp_dec_chars(p4 as int)
            },
        },
{
    if p1 == 2 && p3 == 1 && p4 == 1 {
        proof {
            reveal_strlit("@");
        }
        let mut s = String::from_str(player.name.as_str());
        s.append("@");
        s.append(player.world.as_str());
        proof {
            assert(s@ =~= sp_player_name_world(*player));
        }
        Ok(s)
    } else {
        Err(
            LogMessagePropError {
                name: "SheetEn",
                params: vec![
                    u32_to_string(p1),
                    player.to_string(),
                    u32_to_string(p3),
                    u32_to_string(p4),
                ],
            },
        )
    }
}

/// The two tables together: what one message evaluation may read.
pub struct LogMessageProps {
    pub object_parameter: ObjectProp,
    pub player_parameter: PlayerProp,
}

impl LogMessageProps {
    /// Assemble the tables.
    pub fn new(object_parameter: ObjectProp, player_parameter: PlayerProp) -> (r: LogMessageProps)
        ensures
            r.object_parameter.me@ == object_parameter.me@,
            r.object_parameter.origin@ == object_parameter.origin@,
            r.object_parameter.target == object_parameter.target,
            r.player_parameter.origin == player_parameter.origin,
            r.player_parameter.target == player_parameter.target,
            r.player_parameter.player_gender == player_parameter.player_gender,
    {
        LogMessageProps { object_parameter, player_parameter }
    }

    /// Look an object parameter up; see [`ObjectProp::at`].
    pub fn object_parameter(&self, ind: u32) -> (r: Result<&String, LogMessagePropError>)
        ensures
            match r {
                Ok(s) => {
                    ||| (ind == 1 && s@ == self.object_parameter.origin@)
                    ||| (ind == 2 && s@ == self.object_parameter.me@)
                    ||| ({
                        &&& ind == 3
                        &&& self.object_parameter.target matches Some(t)
                        &&& s@ == t@
                    })
                },
                Err(e) => {
                    &&& (ind == 3 && self.object_parameter.target is None) || !(1 <= ind <= 3)
                    &&& e.name@ == "ObjectParameter"@
                    &&& e.params@.len() == 1
                    &&& e.params@[0]@ == sp_dec_chars(ind as int)
                },
            },
    {
        self.object_parameter.at(ind)
    }

    /// Look a player parameter up; see [`PlayerProp::at`].
    pub fn player_parameter(&self, ind: u32) -> (r: Result<PParam, LogMessagePropError>)
        ensures
            match r {
                Ok(p) => {
                    ||| ({
                        &&& ind == 7
                        &&& p matches PParam::Player(o)
                        &&& sp_opt_player(o, self.player_parameter.origin)
                    })
                    ||| ({
                        &&& ind == 8
                        &&& p matches PParam::Player(o)
                        &&& sp_opt_player(o, self.player_parameter.target)
                    })
                    ||| (ind == 5 && p == PParam::Bool(self.player_parameter.player_gender
                        is Female))
                },
                Err(e) => {
                    &&& !(ind == 5 || ind == 7 || ind == 8)
                    &&& e.name@ == "PlayerParameter"@
                    &&& e.params@.len() == 1
                    &&& e.params@[0]@ == sp_dec_chars(ind as int)
                },
            },
    {
        self.player_parameter.at(ind)
    }

    /// Resolve a `SheetEn` call; see [`sheet_en`].
    pub fn sheet_en(p1: u32, player: &Player, p3: u32, p4: u32) -> (r: Result<
        String,
        LogMessagePropError,
    >)
        ensures
            match r {
                Ok(s) => {
                    &&& p1 == 2 && p3 == 1 && p4 == 1
                    &&& s@ == sp_player_name_world(*player)
                },
                Err(e) => {
                    &&& !(p1 == 2 && p3 == 1 && p4 == 1)
                    &&& e.name@ == "SheetEn"@
                    &&& e.params@.len() == 4
                    &&& e.params@[0]@ == sp_dec_chars(p1 as int)
                    &&& e.params@[1]@ == sp_player_display(*player)
                    &&& e.params@[2]@ == sp_dec_chars(p3 as int)
                    &&& e.params@[3]@ == sp_dec_chars(p4 as int)
                },
            },
    {
        sheet_en(p1, player, p3, p4)
    }

    /// Resolve a `Sheet(ObjStr, ...)` call: the only accepted second
    /// parameter is 0, giving the player's name with world.
    pub fn sheet_objstr(player: &Player, p2: u32) -> (r: Result<String, LogMessagePropError>)
        ensures
            match r {
                Ok(s) => {
                    &&& p2 == 0
                    &&& s@ == sp_player_name_world(*player)
                },
                Err(e) => {
                    &&& p2 != 0
                    &&& e.name@ == "Sheet"@
                    &&& e.params@.len() == 3
                    &&& e.params@[0]@ == "ObjStr"@
                    &&& e.params@[1]@ == sp_player_display(*player)
                    &&& e.params@[2]@ == sp_dec_chars(p2 as int)
                },
            },
    {
        if p2 == 0 {
            proof {
                reveal_strlit("@");
            }
            let mut s = String::from_str(player.name.as_str());
            s.append("@");
            s.append(player.world.as_str());
            proof {
                assert(s@ =~= sp_player_name_world(*player));
            }
            Ok(s)
        } else {
            Err(
                LogMessagePropError {
                    name: "Sheet",
                    params: vec![
                        String::from_str("ObjStr"),
                        player.to_string(),
                        u32_to_string(p2),
                    ],
                },
            )
        }
    }

    /// Resolve a `Sheet(BNpcName, ...)` call: the only accepted second
    /// parameter is 6, testing whether the player is female. Despite the
    /// name, this is used for player characters as well, and appears only
    /// inside if-conditions.
    pub fn sheet_bnpcname(player: &Player, p2: u32) -> (r: Result<bool, LogMessagePropError>)
        ensures
            match r {
                Ok(b) => {
                    &&& p2 == 6
                    &&& b == (player.gender is Female)
                },
                Err(e) => {
                    &&& p2 != 6
                    &&& e.name@ == "Sheet"@
                    &&& e.params@.len() == 3
                    &&& e.params@[0]@ == "BNpcName"@
                    &&& e.params@[1]@ == sp_player_display(*player)
                    &&& e.params@[2]@ == sp_dec_chars(p2 as int)
                },
            },
    {
        if p2 == 6 {
            Ok(matches!(player.gender, Gender::Female))
        } else {
            Err(
                LogMessagePropError {
                    name: "Sheet",
                    params: vec![
                        String::from_str("BNpcName"),
                        player.to_string(),
                        u32_to_string(p2),
                    ],
                },
            )
        }
    }
}

} // verus!
