//! Cells of the board and the team-inheritance rule.

use vstd::prelude::*;

verus! {

/// The side a living cell fights for. Dead cells keep a well-defined
/// team value (Neutral by default) so that rules never read junk.
#[derive(Debug, Clone, Copy, PartialEq, Eq, Hash, Structural)]
pub enum Team {
    Red,
    Blue,
    Neutral,
}

/// One square of the board: whether it lives, and for which team.
#[derive(Debug, Clone, Copy, PartialEq, Eq, Structural)]
pub struct Cell {
    pub alive: bool,
    pub team: Team,
}

/// How many cells of `s` belong to team `t`.
pub open spec fn count_team(s: Seq<Cell>, t: Team) -> nat
    decreases s.len(),
{
    if s.len() == 0 {
        0
    } else {
        count_team(s.drop_last(), t) + (if s.last().team == t {
            1nat
        } else {
            0nat
        })
    }
}

/// The living members of `s`, in order: the parents a birth draws from.
pub open spec fn live_cells(s: Seq<Cell>) -> Seq<Cell>
    decreases s.len(),
{
    if s.len() == 0 {
        Seq::empty()
    } else if s.last().alive {
        live_cells(s.drop_last()).push(s.last())
    } else {
        live_cells(s.drop_last())
    }
}

/// The team a newborn cell takes, given how many of its parents are
/// Red and how many are Blue: a side wins only when the other is absent;
/// contested or teamless births come out Neutral.
pub open spec fn majority_team(red: nat, blue: nat) -> Team {
    if red >= 1 && blue == 0 {
        Team::Red
    } else if blue >= 1 && red == 0 {
        Team::Blue
    } else {
        Team::Neutral
    }
}

/// The team inherited from a sequence of parent cells.
pub open spec fn inherited_team(parents: Seq<Cell>) -> Team {
    majority_team(count_team(parents, Team::Red), count_team(parents, Team::Blue))
}

impl Cell {
    /// A fresh cell: dead and Neutral.
    pub fn new() -> (c: Cell)
        ensures
            c == (Cell { alive: false, team: Team::Neutral }),
    {
        Cell { alive: false, team: Team::Neutral }
    }

    /// The cell a pair of random draws builds: a roll below 4 of the 10
    /// equally likely values gives life, and the team roll deals Red on
    /// 0 and Blue otherwise — never Neutral.
    pub fn from_rolls(roll: u32, team_roll: u32) -> (c: Cell)
        ensures
            c.alive == (roll < 4),
            c.team == (if team_roll == 0 {
                Team::Red
            } else {
                Team::Blue
            }),
    {
        Cell {
            alive: roll < 4,
            team: if team_roll == 0 {
                Team::Red
            } else {
                Team::Blue
            },
        }
    }

    /// Set this cell's team from its parent cells, by the majority rule:
    /// Red parents with no Blue parent give Red, Blue parents with no Red
    /// parent give Blue, and any other mix gives Neutral.
    pub fn inherit_from(&mut self, parents: &Vec<Cell>)
        ensures
            final(self).alive == old(self).alive,
            final(self).team == inherited_team(parents@),
    {
        let mut red: usize = 0;
        let mut blue: usize = 0;
        let mut i: usize = 0;
        while i < parents.len()
            invariant
                i <= parents@.len(),
                red <= i,
                blue <= i,
                red == count_team(parents@.take(i as int), Team::Red),
                blue == count_team(parents@.take(i as int), Team::Blue),
            decreases parents@.len() - i,
        {
            proof {
                assert(parents@.take(i as int + 1).drop_last() =~= parents@.take(i as int));
                assert(parents@.take(i as int + 1).last() == parents@[i as int]);
            }
            match parents[i].team {
                Team::Red => {
                    red = red + 1;
                },
                Team::Blue => {
                    blue = blue + 1;
                },
                Team::Neutral => {},
            }
            i = i + 1;
        }
        proof {
            assert(parents@.take(parents@.len() as int) =~= parents@);
        }
        self.team = if red >= 1 && blue == 0 {
            Team::Red
        } else if blue >= 1 && red == 0 {
            Team::Blue
        } else {
            Team::Neutral
        };
    }
}

} // verus!
