use vstd::prelude::*;

use crate::models::unit::{
    convert_between, convert_between_result, unsupported_unit_message,
    unsupported_unit_message_spec, Ratio, UnitConvertible,
};
use crate::text::str_eq;

verus! {
/// A unit of distance.
#[derive(Debug, Clone, Copy, PartialEq, Eq, Structural)]
pub enum DistanceUnit {
    Meter,
    Kilometer,
    Miles,
}
impl DistanceUnit {
    /// The text that names this unit.
    pub open spec fn symbol(self) -> Seq<char> {
        match self {
            DistanceUnit::Meter => seq!['m'],
            DistanceUnit::Kilometer => seq!['k', 'm'],
            DistanceUnit::Miles => seq!['m', 'i', 'l', 'e', 's'],
        }
    }

    /// The unit that `s` names, if any.
    pub open spec fn spec_from_symbol(s: Seq<char>) -> Option<DistanceUnit> {
        if s == DistanceUnit::Meter.symbol() {
            Some(DistanceUnit::Meter)
        } else if s == DistanceUnit::Kilometer.symbol() {
            Some(DistanceUnit::Kilometer)
        } else if s == DistanceUnit::Miles.symbol() {
            Some(DistanceUnit::Miles)
        } else {
            None
        }
    }

    /// The factor of this unit relative to meters.
    pub open spec fn spec_unit_factor(self) -> Ratio {
        match self {
            DistanceUnit::Meter => Ratio { num: 1, den: 1 },
            DistanceUnit::Kilometer => Ratio { num: 1000, den: 1 },
            DistanceUnit::Miles => Ratio { num: 160934, den: 100 },
        }
    }

    /// The factor of this unit relative to meters.
    pub fn factor(&self) -> (r: Ratio)
        ensures
            r == self.spec_unit_factor(),
    {
        match self {
            DistanceUnit::Meter => Ratio { num: 1, den: 1 },
            DistanceUnit::Kilometer => Ratio { num: 1000, den: 1 },
            DistanceUnit::Miles => Ratio { num: 160934, den: 100 },
        }
    }

    /// Converts `value` from unit `from` to unit `to` (see [`convert_between`]).
    pub fn convert_value(value: Ratio, from: Self, to: Self) -> (r: Option<Ratio>)
        requires
            value.wf(),
        ensures
            r == convert_between_result(value, from, to),
    {
        convert_between(value, from, to)
    }

    /// The unit whose symbol is `value`, if any.
    pub fn from_symbol(value: &str) -> (r: Option<Self>)
        ensures
            r == Self::spec_from_symbol(value@),
    {
        if str_eq(value, "m") {
            proof {
                reveal_strlit("m");
                assert(value@ =~= DistanceUnit::Meter.symbol());
            }
            return Some(DistanceUnit::Meter);
        }
        proof {
            reveal_strlit("m");
            assert("m"@ =~= DistanceUnit::Meter.symbol());
        }
        if str_eq(value, "km") {
            proof {
                reveal_strlit("km");
                assert(value@ =~= DistanceUnit::Kilometer.symbol());
            }
            return Some(DistanceUnit::Kilometer);
        }
        proof {
            reveal_strlit("km");
            assert("km"@ =~= DistanceUnit::Kilometer.symbol());
        }
        if str_eq(value, "miles") {
            proof {
                reveal_strlit("miles");
                assert(value@ =~= DistanceUnit::Miles.symbol());
            }
            return Some(DistanceUnit::Miles);
        }
        proof {
            reveal_strlit("miles");
            assert("miles"@ =~= DistanceUnit::Miles.symbol());
        }
        None
    }
}

/// Reading a unit's own symbol gives that unit back, so no two units share a symbol.
pub proof fn law_symbol_round_trip(u: DistanceUnit)
    ensures
        DistanceUnit::spec_from_symbol(u.symbol()) == Some(u),
{
    assert(DistanceUnit::Meter.symbol() != DistanceUnit::Kilometer.symbol()) by {
        assert(DistanceUnit::Meter.symbol().len() != DistanceUnit::Kilometer.symbol().len() || DistanceUnit::Meter.symbol()[0] != DistanceUnit::Kilometer.symbol()[0]);
    }
    assert(DistanceUnit::Meter.symbol() != DistanceUnit::Miles.symbol()) by {
        assert(DistanceUnit::Meter.symbol().len() != DistanceUnit::Miles.symbol().len() || DistanceUnit::Meter.symbol()[0] != DistanceUnit::Miles.symbol()[0]);
    }
    assert(DistanceUnit::Kilometer.symbol() != DistanceUnit::Miles.symbol()) by {
        assert(DistanceUnit::Kilometer.symbol().len() != DistanceUnit::Miles.symbol().len() || DistanceUnit::Kilometer.symbol()[0] != DistanceUnit::Miles.symbol()[0]);
    }
}

impl UnitConvertible for DistanceUnit {
    open spec fn spec_factor(self) -> Ratio {
        self.spec_unit_factor()
    }

    proof fn lemma_factor_bounds(self) {
    }

    fn unit_factor(self) -> (r: Ratio) {
        self.factor()
    }
}

impl TryFrom<&str> for DistanceUnit {
    type Error = String;

    /// The unit whose symbol is `value`, or the message `Unsupported unit '<value>'`.
    fn try_from(value: &str) -> (r: Result<Self, String>)
        ensures
            match r {
                Ok(u) => Self::spec_from_symbol(value@) == Some(u),
                Err(e) => Self::spec_from_symbol(value@) is None && e@ == unsupported_unit_message_spec(
                    value@,
                ),
            },
    {
        match Self::from_symbol(value) {
            Some(u) => Ok(u),
            None => Err(unsupported_unit_message(value)),
        }
    }
}

impl vstd::std_specs::convert::TryFromSpecImpl<&str> for DistanceUnit {
    open spec fn obeys_try_from_spec() -> bool {
        false
    }

    open spec fn try_from_spec(v: &str) -> Result<Self, String> {
        match Self::spec_from_symbol(v@) {
            Some(u) => Ok(u),
            None => Err(vstd::pervasive::arbitrary()),
        }
    }
}

} // verus!
