//! The binding strengths of the expression parser.

use vstd::prelude::*;

verus! {

/// Binding strength, from weakest to strongest.
#[derive(Debug, PartialEq, Eq, Clone, Copy, Structural)]
pub enum Precedence {
    PrecNone,
    /// `=`
    PrecAssignment,
    /// `or`
    PrecOr,
    /// `and`
    PrecAnd,
    /// `==` `!=`
    PrecEquality,
    /// `<` `>` `<=` `>=`
    PrecComparison,
    /// `+` `-`
    PrecTerm,
    /// `*` `/`
    PrecFactor,
    /// `!` `-`
    PrecUnary,
    /// `.` `()`
    PrecCall,
    PrecPrimary,
}

impl Precedence {
    /// The position of a level in the order: 0 for `PrecNone`, 10 for
    /// `PrecPrimary`.
    pub open spec fn rank(self) -> nat {
        match self {
            Precedence::PrecNone => 0,
            Precedence::PrecAssignment => 1,
            Precedence::PrecOr => 2,
            Precedence::PrecAnd => 3,
            Precedence::PrecEquality => 4,
            Precedence::PrecComparison => 5,
            Precedence::PrecTerm => 6,
            Precedence::PrecFactor => 7,
            Precedence::PrecUnary => 8,
            Precedence::PrecCall => 9,
            Precedence::PrecPrimary => 10,
        }
    }

    /// The level at a position of the order.
    pub open spec fn of_rank(rank: nat) -> Precedence
        recommends
            rank <= 10,
    {
        if rank == 0 {
            Precedence::PrecNone
        } else if rank == 1 {
            Precedence::PrecAssignment
        } else if rank == 2 {
            Precedence::PrecOr
        } else if rank == 3 {
            Precedence::PrecAnd
        } else if rank == 4 {
            Precedence::PrecEquality
        } else if rank == 5 {
            Precedence::PrecComparison
        } else if rank == 6 {
            Precedence::PrecTerm
        } else if rank == 7 {
            Precedence::PrecFactor
        } else if rank == 8 {
            Precedence::PrecUnary
        } else if rank == 9 {
            Precedence::PrecCall
        } else {
            Precedence::PrecPrimary
        }
    }

    /// The position of a level in the order, as a machine integer.
    pub fn level(self) -> (r: u8)
        ensures
            r == self.rank(),
            r <= 10,
    {
        match self {
            Precedence::PrecNone => 0,
            Precedence::PrecAssignment => 1,
            Precedence::PrecOr => 2,
            Precedence::PrecAnd => 3,
            Precedence::PrecEquality => 4,
            Precedence::PrecComparison => 5,
            Precedence::PrecTerm => 6,
            Precedence::PrecFactor => 7,
            Precedence::PrecUnary => 8,
            Precedence::PrecCall => 9,
            Precedence::PrecPrimary => 10,
        }
    }

    /// The level at a position of the order, `None` beyond the strongest.
    pub fn from_level(level: u8) -> (r: Option<Precedence>)
        ensures
            level <= 10 ==> r == Some(Precedence::of_rank(level as nat)),
            level > 10 ==> r is None,
    {
        match level {
            0 => Some(Precedence::PrecNone),
            1 => Some(Precedence::PrecAssignment),
            2 => Some(Precedence::PrecOr),
            3 => Some(Precedence::PrecAnd),
            4 => Some(Precedence::PrecEquality),
            5 => Some(Precedence::PrecComparison),
            6 => Some(Precedence::PrecTerm),
            7 => Some(Precedence::PrecFactor),
            8 => Some(Precedence::PrecUnary),
            9 => Some(Precedence::PrecCall),
            10 => Some(Precedence::PrecPrimary),
            _ => None,
        }
    }

    /// Whether `self` binds at most as strongly as `other`.
    pub fn at_most(self, other: Precedence) -> (r: bool)
        ensures
            r == (self.rank() <= other.rank()),
    {
        self.level() <= other.level()
    }

    /// The next stronger level. There is none after `PrecPrimary`.
    pub fn next(self) -> (r: Precedence)
        requires
            self != Precedence::PrecPrimary,
        ensures
            r.rank() == self.rank() + 1,
            r == Precedence::of_rank(self.rank() + 1),
    {
        match self {
            Precedence::PrecNone => Precedence::PrecAssignment,
            Precedence::PrecAssignment => Precedence::PrecOr,
            Precedence::PrecOr => Precedence::PrecAnd,
            Precedence::PrecAnd => Precedence::PrecEquality,
            Precedence::PrecEquality => Precedence::PrecComparison,
            Precedence::PrecComparison => Precedence::PrecTerm,
            Precedence::PrecTerm => Precedence::PrecFactor,
            Precedence::PrecFactor => Precedence::PrecUnary,
            Precedence::PrecUnary => Precedence::PrecCall,
            _ => Precedence::PrecPrimary,
        }
    }

    /// The next weaker level. There is none before `PrecNone`.
    pub fn previous(self) -> (r: Precedence)
        requires
            self != Precedence::PrecNone,
        ensures
            r.rank() + 1 == self.rank(),
            r == Precedence::of_rank((self.rank() - 1) as nat),
    {
        match self {
            Precedence::PrecAssignment => Precedence::PrecNone,
            Precedence::PrecOr => Precedence::PrecAssignment,
            Precedence::PrecAnd => Precedence::PrecOr,
            Precedence::PrecEquality => Precedence::PrecAnd,
            Precedence::PrecComparison => Precedence::PrecEquality,
            Precedence::PrecTerm => Precedence::PrecComparison,
            Precedence::PrecFactor => Precedence::PrecTerm,
            Precedence::PrecUnary => Precedence::PrecFactor,
            Precedence::PrecCall => Precedence::PrecUnary,
            _ => Precedence::PrecCall,
        }
    }

    /// Distinct levels have distinct positions, and every position up to 10
    /// is that of a level: the order is strict and total.
    pub proof fn rank_is_a_bijection(a: Precedence, b: Precedence, n: nat)
        ensures
            a.rank() <= 10,
            a.rank() == b.rank() ==> a == b,
            Precedence::of_rank(a.rank()) == a,
            n <= 10 ==> Precedence::of_rank(n).rank() == n,
    {
    }
}

} // verus!
