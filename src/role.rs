use crate::text::str_equals;
use vstd::prelude::*;

verus! {

/// The lane a participant played, as used to pick a weighting profile.
#[derive(Debug, Clone, Copy, PartialEq, Eq, Structural, Hash, Default)]
pub enum Role {
    Top,
    Jungle,
    Mid,
    Bot,
    Support,
    #[default]
    Other,
}

/// The lowercase form of a string, as `str::to_lowercase` computes it.
pub uninterp spec fn lower_of(s: Seq<char>) -> Seq<char>;

/// Relies on `str::to_lowercase`: the result depends on the characters alone.
#[verifier::external_body]
fn lowercase(s: &str) -> (r: String)
    ensures
        r@ == lower_of(s@),
{
    s.to_lowercase()
}

/// The role that a lowercase position designator stands for.
pub open spec fn role_of_lowered(s: Seq<char>) -> Role {
    if s == seq!['t', 'o', 'p'] {
        Role::Top
    } else if s == seq!['j', 'u', 'n', 'g', 'l', 'e'] {
        Role::Jungle
    } else if s == seq!['m', 'i', 'd', 'd', 'l', 'e'] {
        Role::Mid
    } else if s == seq!['b', 'o', 't', 't', 'o', 'm'] {
        Role::Bot
    } else if s == seq!['u', 't', 'i', 'l', 'i', 't', 'y'] {
        Role::Support
    } else {
        Role::Other
    }
}

/// The role that a position designator stands for, in any letter case.
pub open spec fn role_of_position(s: Seq<char>) -> Role {
    role_of_lowered(lower_of(s))
}

impl Role {
    /// Maps an already lowercased position designator to its role; anything
    /// outside the fixed vocabulary is `Other`.
    pub fn from_lowered(s: &str) -> (r: Role)
        ensures
            r == role_of_lowered(s@),
    {
        proof {
            reveal_strlit("top");
            reveal_strlit("jungle");
            reveal_strlit("middle");
            reveal_strlit("bottom");
            reveal_strlit("utility");
            assert("top"@ =~= seq!['t', 'o', 'p']);
            assert("jungle"@ =~= seq!['j', 'u', 'n', 'g', 'l', 'e']);
            assert("middle"@ =~= seq!['m', 'i', 'd', 'd', 'l', 'e']);
            assert("bottom"@ =~= seq!['b', 'o', 't', 't', 'o', 'm']);
            assert("utility"@ =~= seq!['u', 't', 'i', 'l', 'i', 't', 'y']);
        }
        if str_equals(s, "top") {
            Role::Top
        } else if str_equals(s, "jungle") {
            Role::Jungle
        } else if str_equals(s, "middle") {
            Role::Mid
        } else if str_equals(s, "bottom") {
            Role::Bot
        } else if str_equals(s, "utility") {
            Role::Support
        } else {
            Role::Other
        }
    }

    /// Maps a position designator to its role, ignoring letter case.
    pub fn from_position(s: &str) -> (r: Role)
        ensures
            r == role_of_position(s@),
    {
        let lowered = lowercase(s);
        Role::from_lowered(lowered.as_str())
    }

    /// The role of an optional position; an absent one is `Other`.
    pub fn from_optional(position: &Option<String>) -> (r: Role)
        ensures
            r == match position {
                Some(p) => role_of_position(p@),
                None => Role::Other,
            },
    {
        match position {
            Some(p) => Role::from_position(p.as_str()),
            None => Role::Other,
        }
    }
}

} // verus!
