use vstd::prelude::*;

use crate::models::elements::Schemas;
use crate::models::error::item_line_conversion_error::{error_message, ItemLineConversionError};
use crate::models::model::{ItemLine, ItemSet};
use crate::models::typed_lines::{
    spec_button_line, spec_container_line, spec_text_field_line, ButtonLine, ContainerLine,
    FloatLiteral, TextFieldLine,
};
use crate::text::{is_float_literal, str_eq};

verus! {

/// A line to compute, with where it comes from.
pub struct LineCalculationRequest {
    pub list_index: usize,
    pub list_name: String,
    pub line_index: usize,
    pub request_revision: u64,
    pub line: ItemLine,
}

impl LineCalculationRequest {
    /// A request for `line`, line `line_index` of list `list_index` called `list_name`.
    pub fn new(
        list_index: usize,
        list_name: String,
        line_index: usize,
        request_revision: u64,
        line: ItemLine,
    ) -> (r: Self)
        ensures
            r == (LineCalculationRequest {
                list_index,
                list_name,
                line_index,
                request_revision,
                line,
            }),
    {
        Self { list_index, list_name, line_index, request_revision, line }
    }
}

/// A line of an element without a typed form: its title and the values that are
/// floating-point literals.
pub struct UnknownLineData {
    pub title: String,
    pub numeric_values: Vec<FloatLiteral>,
}

/// A line read into the typed form of its element.
pub enum LineGenerator {
    Container(ContainerLine),
    Button(ButtonLine),
    TextField(TextFieldLine),
    Unknown(UnknownLineData),
}

/// The values of `data` (in order) that are floating-point literals.
pub open spec fn numeric_texts(data: Seq<ItemSet>) -> Seq<Seq<char>>
    decreases data.len(),
{
    if data.len() == 0 {
        Seq::empty()
    } else {
        let rest = numeric_texts(data.drop_last());
        if is_float_literal(data.last().value@) {
            rest.push(data.last().value@)
        } else {
            rest
        }
    }
}

/// The texts of a sequence of literals.
pub open spec fn literals_view(s: Seq<FloatLiteral>) -> Seq<Seq<char>> {
    Seq::new(s.len(), |i: int| s[i].text@)
}

/// The values of `line` that are floating-point literals, in order.
pub fn collect_numeric_values(line: &ItemLine) -> (r: Vec<FloatLiteral>)
    ensures
        literals_view(r@) == numeric_texts(line.data@),
        forall|i: int| 0 <= i < r@.len() ==> (#[trigger] r@[i]).wf(),
{
    let mut out: Vec<FloatLiteral> = Vec::new();
    let mut i: usize = 0;
    while i < line.data.len()
        invariant
            i <= line.data.len(),
            literals_view(out@) == numeric_texts(line.data@.take(i as int)),
            forall|k: int| 0 <= k < out@.len() ==> (#[trigger] out@[k]).wf(),
        decreases line.data.len() - i,
    {
        let ghost prefix = line.data@.take(i + 1);
        assert(prefix.drop_last() =~= line.data@.take(i as int));
        assert(prefix.last() == line.data@[i as int]);
        let ghost before = literals_view(out@);
        match FloatLiteral::parse(&line.data[i].value) {
            Some(v) => {
                out.push(v);
                assert(literals_view(out@) =~= before.push(line.data@[i as int].value@));
            },
            None => {},
        }
        i += 1;
    }
    assert(line.data@.take(i as int) =~= line.data@);
    out
}

/// What reading a typed line gives as the generator's result: the line, or the message
/// of the error.
pub open spec fn typed_or_message<T>(r: Result<LineGenerator, String>, typed: Result<
    T,
    ItemLineConversionError,
>, wrap: spec_fn(T) -> LineGenerator) -> bool {
    match typed {
        Ok(t) => r == Ok::<LineGenerator, String>(wrap(t)),
        Err(e) => r matches Err(m) && m@ == error_message(e),
    }
}

impl LineGenerator {
    /// Reads `line` into the typed form of its element (`Container`, `Button` or
    /// `TextField`, failing with the conversion's message), or into an untyped line
    /// holding its numeric values when its element has no typed form.
    pub fn from_line(line: &ItemLine, schemas: &Schemas) -> (r: Result<Self, String>)
        ensures
            line.title@ == "Container"@ ==> typed_or_message(
                r,
                spec_container_line(*line, *schemas),
                |c: ContainerLine| LineGenerator::Container(c),
            ),
            line.title@ == "Button"@ ==> typed_or_message(
                r,
                spec_button_line(*line, *schemas),
                |b: ButtonLine| LineGenerator::Button(b),
            ),
            line.title@ == "TextField"@ ==> typed_or_message(
                r,
                spec_text_field_line(*line, *schemas),
                |t: TextFieldLine| LineGenerator::TextField(t),
            ),
            line.title@ != "Container"@ && line.title@ != "Button"@ && line.title@ != "TextField"@
                ==> (r matches Ok(LineGenerator::Unknown(d)) && d.title == line.title
                && literals_view(d.numeric_values@) == numeric_texts(line.data@)),
    {
        proof {
            reveal_strlit("Container");
            reveal_strlit("Button");
            reveal_strlit("TextField");
            assert("Container"@[0] != "Button"@[0]);
            assert("Container"@[0] != "TextField"@[0]);
            assert("Button"@.len() != "TextField"@.len());
        }
        if str_eq(line.title.as_str(), "Container") {
            match ContainerLine::try_from_item_line(line, schemas) {
                Ok(c) => Ok(LineGenerator::Container(c)),
                Err(e) => Err(e.message()),
            }
        } else if str_eq(line.title.as_str(), "Button") {
            match ButtonLine::try_from_item_line(line, schemas) {
                Ok(b) => Ok(LineGenerator::Button(b)),
                Err(e) => Err(e.message()),
            }
        } else if str_eq(line.title.as_str(), "TextField") {
            match TextFieldLine::try_from_item_line(line, schemas) {
                Ok(t) => Ok(LineGenerator::TextField(t)),
                Err(e) => Err(e.message()),
            }
        } else {
            Ok(
                LineGenerator::Unknown(
                    UnknownLineData {
                        title: line.title.clone(),
                        numeric_values: collect_numeric_values(line),
                    },
                ),
            )
        }
    }

    /// The element this generator was read as; an untyped line keeps its own title.
    pub fn title(&self) -> (r: &str)
        ensures
            match self {
                LineGenerator::Container(_) => r@ == "Container"@,
                LineGenerator::Button(_) => r@ == "Button"@,
                LineGenerator::TextField(_) => r@ == "TextField"@,
                LineGenerator::Unknown(d) => r@ == d.title@,
            },
    {
        match self {
            LineGenerator::Container(_) => "Container",
            LineGenerator::Button(_) => "Button",
            LineGenerator::TextField(_) => "TextField",
            LineGenerator::Unknown(d) => d.title.as_str(),
        }
    }
}

} // verus!
