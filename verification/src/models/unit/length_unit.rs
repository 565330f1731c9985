use vstd::prelude::*;

use crate::models::unit::{
    convert_between, convert_between_result, unsupported_unit_message,
    unsupported_unit_message_spec, Ratio, UnitConvertible,
};
use crate::text::str_eq;

verus! {
/// A unit of length.
#[derive(Debug, Clone, Copy, PartialEq, Eq, Structural)]
pub enum LengthUnit {
    Px,
    Em,
    Rem,
    Percent,
}
impl LengthUnit {
    /// The text that names this unit.
    pub open spec fn symbol(self) -> Seq<char> {
        match self {
            LengthUnit::Px => seq!['p', 'x'],
            LengthUnit::Em => seq!['e', 'm'],
            LengthUnit::Rem => seq!['r', 'e', 'm'],
            LengthUnit::Percent => seq!['%'],
        }
    }

    /// The unit that `s` names, if any.
    pub open spec fn spec_from_symbol(s: Seq<char>) -> Option<LengthUnit> {
        if s == LengthUnit::Px.symbol() {
            Some(LengthUnit::Px)
        } else if s == LengthUnit::Em.symbol() {
            Some(LengthUnit::Em)
        } else if s == LengthUnit::Rem.symbol() {
            Some(LengthUnit::Rem)
        } else if s == LengthUnit::Percent.symbol() {
            Some(LengthUnit::Percent)
        } else {
            None
        }
    }

    /// The factor of this unit relative to pixels.
    pub open spec fn spec_unit_factor(self) -> Ratio {
        match self {
            LengthUnit::Px => Ratio { num: 1, den: 1 },
            LengthUnit::Em => Ratio { num: 3, den: 1 },
            LengthUnit::Rem => Ratio { num: 2, den: 1 },
            LengthUnit::Percent => Ratio { num: 1, den: 2 },
        }
    }

    /// The factor of this unit relative to pixels.
    pub fn factor(&self) -> (r: Ratio)
        ensures
            r == self.spec_unit_factor(),
    {
        match self {
            LengthUnit::Px => Ratio { num: 1, den: 1 },
            LengthUnit::Em => Ratio { num: 3, den: 1 },
            LengthUnit::Rem => Ratio { num: 2, den: 1 },
            LengthUnit::Percent => Ratio { num: 1, den: 2 },
        }
    }

    /// Converts `value` from unit `from` to unit `to` (see [`convert_between`]).
    pub fn convert_value(value: Ratio, from: Self, to: Self) -> (r: Option<Ratio>)
        requires
            value.wf(),
        ensures
            r == convert_between_result(value, from, to),
    {
        convert_between(value, from, to)
    }

    /// The unit whose symbol is `value`, if any.
    pub fn from_symbol(value: &str) -> (r: Option<Self>)
        ensures
            r == Self::spec_from_symbol(value@),
    {
        if str_eq(value, "px") {
            proof {
                reveal_strlit("px");
                assert(value@ =~= LengthUnit::Px.symbol());
            }
            return Some(LengthUnit::Px);
        }
        proof {
            reveal_strlit("px");
            assert("px"@ =~= LengthUnit::Px.symbol());
        }
        if str_eq(value, "em") {
            proof {
                reveal_strlit("em");
                assert(value@ =~= LengthUnit::Em.symbol());
            }
            return Some(LengthUnit::Em);
        }
        proof {
            reveal_strlit("em");
            assert("em"@ =~= LengthUnit::Em.symbol());
        }
        if str_eq(value, "rem") {
            proof {
                reveal_strlit("rem");
                assert(value@ =~= LengthUnit::Rem.symbol());
            }
            return Some(LengthUnit::Rem);
        }
        proof {
            reveal_strlit("rem");
            assert("rem"@ =~= LengthUnit::Rem.symbol());
        }
        if str_eq(value, "%") {
            proof {
                reveal_strlit("%");
                assert(value@ =~= LengthUnit::Percent.symbol());
            }
            return Some(LengthUnit::Percent);
        }
        proof {
            reveal_strlit("%");
            assert("%"@ =~= LengthUnit::Percent.symbol());
        }
        None
    }
}

/// Reading a unit's own symbol gives that unit back, so no two units share a symbol.
pub proof fn law_symbol_round_trip(u: LengthUnit)
    ensures
        LengthUnit::spec_from_symbol(u.symbol()) == Some(u),
{
    assert(LengthUnit::Px.symbol() != LengthUnit::Em.symbol()) by {
        assert(LengthUnit::Px.symbol().len() != LengthUnit::Em.symbol().len() || LengthUnit::Px.symbol()[0] != LengthUnit::Em.symbol()[0]);
    }
    assert(LengthUnit::Px.symbol() != LengthUnit::Rem.symbol()) by {
        assert(LengthUnit::Px.symbol().len() != LengthUnit::Rem.symbol().len() || LengthUnit::Px.symbol()[0] != LengthUnit::Rem.symbol()[0]);
    }
    assert(LengthUnit::Px.symbol() != LengthUnit::Percent.symbol()) by {
        assert(LengthUnit::Px.symbol().len() != LengthUnit::Percent.symbol().len() || LengthUnit::Px.symbol()[0] != LengthUnit::Percent.symbol()[0]);
    }
    assert(LengthUnit::Em.symbol() != LengthUnit::Rem.symbol()) by {
        assert(LengthUnit::Em.symbol().len() != LengthUnit::Rem.symbol().len() || LengthUnit::Em.symbol()[0] != LengthUnit::Rem.symbol()[0]);
    }
    assert(LengthUnit::Em.symbol() != LengthUnit::Percent.symbol()) by {
        assert(LengthUnit::Em.symbol().len() != LengthUnit::Percent.symbol().len() || LengthUnit::Em.symbol()[0] != LengthUnit::Percent.symbol()[0]);
    }
    assert(LengthUnit::Rem.symbol() != LengthUnit::Percent.symbol()) by {
        assert(LengthUnit::Rem.symbol().len() != LengthUnit::Percent.symbol().len() || LengthUnit::Rem.symbol()[0] != LengthUnit::Percent.symbol()[0]);
    }
}

impl UnitConvertible for LengthUnit {
    open spec fn spec_factor(self) -> Ratio {
        self.spec_unit_factor()
    }

    proof fn lemma_factor_bounds(self) {
    }

    fn unit_factor(self) -> (r: Ratio) {
        self.factor()
    }
}

impl TryFrom<&str> for LengthUnit {
    type Error = String;

    /// The unit whose symbol is `value`, or the message `Unsupported unit '<value>'`.
    fn try_from(value: &str) -> (r: Result<Self, String>)
        ensures
            match r {
                Ok(u) => Self::spec_from_symbol(value@) == Some(u),
                Err(e) => Self::spec_from_symbol(value@) is None && e@ == unsupported_unit_message_spec(
                    value@,
                ),
            },
    {
        match Self::from_symbol(value) {
            Some(u) => Ok(u),
            None => Err(unsupported_unit_message(value)),
        }
    }
}

impl vstd::std_specs::convert::TryFromSpecImpl<&str> for LengthUnit {
    open spec fn obeys_try_from_spec() -> bool {
        false
    }

    open spec fn try_from_spec(v: &str) -> Result<Self, String> {
        match Self::spec_from_symbol(v@) {
            Some(u) => Ok(u),
            None => Err(vstd::pervasive::arbitrary()),
        }
    }
}

} // verus!
