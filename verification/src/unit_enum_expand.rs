use vstd::prelude::*;

use crate::derive_expand::{name_or, IMPL_HEAD};
use crate::literal::{debug_str, string_lit};

verus! {

/// A variant of an enum deriving unit conversions: its name and what its `#[unit(...)]`
/// attributes say (the symbol it is written with, its factor as `f64`'s `Display` prints
/// it).
pub struct UnitVariantDecl {
    pub name: String,
    pub rename: Option<String>,
    pub factor: Option<String>,
}

/// The factor of a variant that gives none, as `f64`'s `Display` prints `1.0`.
pub const DEFAULT_FACTOR: &'static str = "1";

/// The generated code from after the enum's name to the factor arms.
pub const FACTOR_HEAD: &'static str = " {\n    pub fn factor(&self) -> f64 {\n        match self {\n            ";

/// The generated code from after the factor arms to the enum's name in the `TryFrom` impl.
pub const CONVERT_AND_TRY_HEAD: &'static str = "\n        }\n    }\n\n    pub fn convert_value(value: f64, from: Self, to: Self) -> f64 {\n        value * from.factor() / to.factor()\n    }\n}\n\nimpl ::core::convert::TryFrom<&str> for ";

/// The generated code from after the enum's name to the `TryFrom` arms.
pub const TRY_HEAD: &'static str = " {\n    type Error = ::std::string::String;\n\n    fn try_from(value: &str) -> ::core::result::Result<Self, Self::Error> {\n        match value {\n            ";

/// The generated code from after the `TryFrom` arms to the enum's name in the `UnitConvertible` impl.
pub const TRY_TAIL: &'static str = "\n            _ => ::core::result::Result::Err(::std::format!(\"Unsupported unit '{}'\", value)),\n        }\n    }\n}\n\nimpl UnitConvertible for ";

/// The generated code from after the enum's name to the second factor arms.
pub const UNIT_FACTOR_HEAD: &'static str = " {\n    fn unit_factor(self) -> f64 {\n        match self {\n            ";

/// The end of the generated code.
pub const UNIT_TAIL: &'static str = "\n        }\n    }\n}\n";

/// The arm of `factor` for variant `v`: `Self::<name> => <factor>f64,`.
pub open spec fn factor_arm(v: UnitVariantDecl) -> Seq<char> {
    "Self::"@ + v.name@ + " => "@ + name_or(v.factor, DEFAULT_FACTOR@) + "f64,"@
}

/// The arm of `try_from` for variant `v`: its symbol (its `rename`, else its name) as a
/// string literal, giving the variant.
pub open spec fn try_from_arm(v: UnitVariantDecl) -> Seq<char> {
    debug_str(name_or(v.rename, v.name@)) + " => ::core::result::Result::Ok(Self::"@ + v.name@
        + "),"@
}

/// The factor arms and the `try_from` arms of all variants, in order.
pub open spec fn unit_arms(vs: Seq<UnitVariantDecl>) -> (Seq<char>, Seq<char>)
    decreases vs.len(),
{
    if vs.len() == 0 {
        (Seq::empty(), Seq::empty())
    } else {
        let (f, t) = unit_arms(vs.drop_last());
        (f + factor_arm(vs.last()), t + try_from_arm(vs.last()))
    }
}

/// The unit conversions of enum `enum_name` with variants `vs`: `factor`,
/// `convert_value`, `TryFrom<&str>` by symbol and `UnitConvertible`.
pub open spec fn spec_expand_unit_enum(enum_name: Seq<char>, vs: Seq<UnitVariantDecl>) -> Seq<char> {
    let (f, t) = unit_arms(vs);
    IMPL_HEAD@ + enum_name + FACTOR_HEAD@ + f + CONVERT_AND_TRY_HEAD@ + enum_name + TRY_HEAD@ + t
        + TRY_TAIL@ + enum_name + UNIT_FACTOR_HEAD@ + f + UNIT_TAIL@
}

/// Writes the unit conversions of enum `enum_name` with variants `variants` (see
/// [`spec_expand_unit_enum`]).
pub fn expand_unit_enum(enum_name: &str, variants: &Vec<UnitVariantDecl>) -> (r: String)
    ensures
        r@ == spec_expand_unit_enum(enum_name@, variants@),
{
    let mut factors = String::new();
    let mut symbols = String::new();
    let mut i: usize = 0;
    while i < variants.len()
        invariant
            i <= variants.len(),
            unit_arms(variants@.take(i as int)) == (factors@, symbols@),
        decreases variants.len() - i,
    {
        let v = &variants[i];
        assert(variants@.take(i + 1).drop_last() =~= variants@.take(i as int));
        assert(variants@.take(i + 1).last() == variants@[i as int]);
        factors.append("Self::");
        factors.append(v.name.as_str());
        factors.append(" => ");
        match &v.factor {
            Some(f) => factors.append(f.as_str()),
            None => factors.append(DEFAULT_FACTOR),
        }
        factors.append("f64,");
        let symbol = match &v.rename {
            Some(s) => string_lit(s.as_str()),
            None => string_lit(v.name.as_str()),
        };
        symbols.append(symbol.as_str());
        symbols.append(" => ::core::result::Result::Ok(Self::");
        symbols.append(v.name.as_str());
        symbols.append("),");
        i += 1;
    }
    assert(variants@.take(i as int) =~= variants@);
    let mut out = IMPL_HEAD.to_owned();
    out.append(enum_name);
    out.append(FACTOR_HEAD);
    out.append(factors.as_str());
    out.append(CONVERT_AND_TRY_HEAD);
    out.append(enum_name);
    out.append(TRY_HEAD);
    out.append(symbols.as_str());
    out.append(TRY_TAIL);
    out.append(enum_name);
    out.append(UNIT_FACTOR_HEAD);
    out.append(factors.as_str());
    out.append(UNIT_TAIL);
    out
}

} // verus!
