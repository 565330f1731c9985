use domain::unit_enum_expand::{expand_unit_enum, UnitVariantDecl};

struct Variant {
    name: &'static str,
    rename: Option<&'static str>,
    factor: Option<f64>,
}

fn decl(v: &Variant) -> UnitVariantDecl {
    UnitVariantDecl {
        name: v.name.to_string(),
        rename: v.rename.map(|s| s.to_string()),
        factor: v.factor.map(|f| f.to_string()),
    }
}

fn expected(enum_name: &str, variants: &[Variant]) -> String {
    let mut factor_arms = String::new();
    let mut try_from_arms = String::new();
    for variant in variants {
        let unit_literal = format!("{:?}", variant.rename.unwrap_or(variant.name));
        let unit_factor = variant.factor.unwrap_or(1.0);
        factor_arms.push_str(&format!("Self::{} => {}f64,", variant.name, unit_factor));
        try_from_arms.push_str(&format!(
            "{} => ::core::result::Result::Ok(Self::{}),",
            unit_literal, variant.name
        ));
    }
    format!(
        "
impl {enum_name} {{
    pub fn factor(&self) -> f64 {{
        match self {{
            {factor_arms}
        }}
    }}

    pub fn convert_value(value: f64, from: Self, to: Self) -> f64 {{
        value * from.factor() / to.factor()
    }}
}}

impl ::core::convert::TryFrom<&str> for {enum_name} {{
    type Error = ::std::string::String;

    fn try_from(value: &str) -> ::core::result::Result<Self, Self::Error> {{
        match value {{
            {try_from_arms}
            _ => ::core::result::Result::Err(::std::format!(\"Unsupported unit '{{}}'\", value)),
        }}
    }}
}}

impl UnitConvertible for {enum_name} {{
    fn unit_factor(self) -> f64 {{
        match self {{
            {factor_arms}
        }}
    }}
}}
"
    )
}

#[test]
fn writes_the_unit_conversions_of_an_enum() {
    let variants = [
        Variant { name: "Px", rename: Some("px"), factor: None },
        Variant { name: "Em", rename: Some("em"), factor: Some(16.0) },
        Variant { name: "Percent", rename: Some("%"), factor: Some(0.01) },
        Variant { name: "Rem", rename: None, factor: Some(2.5) },
    ];
    let decls: Vec<UnitVariantDecl> = variants.iter().map(decl).collect();
    let code = expand_unit_enum("LengthUnit", &decls);
    assert_eq!(code, expected("LengthUnit", &variants));
    assert!(code.contains("Self::Px => 1f64,Self::Em => 16f64,Self::Percent => 0.01f64,Self::Rem => 2.5f64,"));
    assert!(code.contains("\"Rem\" => ::core::result::Result::Ok(Self::Rem),"));
}

#[test]
fn an_enum_without_variants_still_gets_its_impls() {
    let code = expand_unit_enum("Empty", &Vec::new());
    assert_eq!(code, expected("Empty", &[]));
}
