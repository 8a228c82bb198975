use vstd::prelude::*;

use crate::error::{ParseErrorView, UciParseError};
use crate::format::{bool_text, decimal, lemma_typed_decimal, push_bool, push_decimal};
use crate::integer::{int_max, int_min, parse_typed, typed_value, IntErrorKind, IntType};
use crate::text::{str_eq, string_views};

verus! {

/// The type of an engine option and its default, as the `option` line announces it.
#[allow(inconsistent_fields)]
#[derive(Debug, Clone)]
pub enum UciOptionKind {
    Check { default: bool },
    Spin { default: i64, min: i64, max: i64 },
    Combo { default: String, variants: Vec<String> },
    Button,
    String { default: String },
}

/// One option that an engine announces.
#[derive(Debug, Clone)]
pub struct UciOptionDeclaration {
    pub name: &'static str,
    pub kind: UciOptionKind,
}

/// The options of an engine: what it announces, and how a `setoption` changes them.
pub trait UciOptions {
    fn declarations() -> Vec<UciOptionDeclaration>;

    fn set(&mut self, name: &str, value: Option<&str>) -> Result<(), UciParseError>;
}

/// ` var <v>` for each variant, in order.
pub open spec fn variants_text(variants: Seq<Seq<char>>) -> Seq<char>
    decreases variants.len(),
{
    if variants.len() == 0 {
        seq![]
    } else {
        variants_text(variants.drop_last()) + " var "@ + variants.last()
    }
}

/// The text of a combo option after `type `.
pub open spec fn combo_text(default: Seq<char>, variants: Seq<Seq<char>>) -> Seq<char> {
    "combo default "@ + default + variants_text(variants)
}

/// The text of an option's kind after `type `.
pub open spec fn kind_text(kind: UciOptionKind) -> Seq<char> {
    match kind {
        UciOptionKind::Check { default } => "check default "@ + bool_text(default),
        UciOptionKind::Spin { default, min, max } => "spin default "@ + decimal(default as int)
            + " min "@ + decimal(min as int) + " max "@ + decimal(max as int),
        UciOptionKind::Combo { default, variants } => combo_text(default@, string_views(variants@)),
        UciOptionKind::Button => "button"@,
        UciOptionKind::String { default } => "string default "@ + default@,
    }
}

/// The `option` line that announces a declaration.
pub open spec fn declaration_line(name: Seq<char>, kind: UciOptionKind) -> Seq<char> {
    "option name "@ + name + " type "@ + kind_text(kind)
}

/// Appends the text of a combo option after `type `.
pub fn write_combo(default: &str, variants: &[String], out: &mut String)
    ensures
        final(out)@ == old(out)@ + combo_text(default@, string_views(variants@)),
{
    out.append("combo default ");
    out.append(default);
    let mut i: usize = 0;
    while i < variants.len()
        invariant
            i <= variants@.len(),
            out@ == old(out)@ + "combo default "@ + default@ + variants_text(
                string_views(variants@).take(i as int),
            ),
        decreases variants.len() - i,
    {
        let ghost vs = string_views(variants@);
        assert(vs.take(i + 1).drop_last() == vs.take(i as int));
        out.append(" var ");
        out.append(variants[i].as_str());
        i += 1;
    }
    assert(string_views(variants@).take(i as int) == string_views(variants@));
}

/// Appends the text of an option's kind after `type `.
pub fn write_kind(kind: &UciOptionKind, out: &mut String)
    ensures
        final(out)@ == old(out)@ + kind_text(*kind),
{
    match kind {
        UciOptionKind::Check { default } => {
            out.append("check default ");
            push_bool(out, *default);
        },
        UciOptionKind::Spin { default, min, max } => {
            out.append("spin default ");
            push_decimal(out, *default);
            out.append(" min ");
            push_decimal(out, *min);
            out.append(" max ");
            push_decimal(out, *max);
        },
        UciOptionKind::Combo { default, variants } => {
            write_combo(default.as_str(), variants.as_slice(), out);
        },
        UciOptionKind::Button => {
            out.append("button");
        },
        UciOptionKind::String { default } => {
            out.append("string default ");
            out.append(default.as_str());
        },
    }
}

impl UciOptionDeclaration {
    /// The `option` line that announces this declaration.
    pub fn to_string(&self) -> (r: String)
        ensures
            r@ == declaration_line(self.name@, self.kind),
    {
        let mut out = String::new();
        out.append("option name ");
        out.append(self.name);
        out.append(" type ");
        write_kind(&self.kind, &mut out);
        out
    }
}

/// The new value of an option, read from the value text of a `setoption`.
#[derive(Debug)]
pub enum OptionValue {
    Check(bool),
    Spin(i128),
    Text(String),
    Button,
}

/// `OptionValue` with its text as a sequence.
pub enum OptionValueView {
    Check(bool),
    Spin(int),
    Text(Seq<char>),
    Button,
}

impl View for OptionValue {
    type V = OptionValueView;

    open spec fn view(&self) -> OptionValueView {
        match self {
            OptionValue::Check(b) => OptionValueView::Check(*b),
            OptionValue::Spin(v) => OptionValueView::Spin(*v as int),
            OptionValue::Text(s) => OptionValueView::Text(s@),
            OptionValue::Button => OptionValueView::Button,
        }
    }
}

/// What a `setoption` with `value` sets an option of `kind` called `name` to: a
/// check is on exactly for `true`, a spin takes a decimal value of its field's
/// integer type `field`, a combo or string takes the text as it is, a button takes
/// no value; all but a button need one.
pub open spec fn option_value_model(name: &'static str, kind: UciOptionKind, field: IntType, value: Option<Seq<char>>) -> Result<OptionValueView, ParseErrorView> {
    match kind {
        UciOptionKind::Button => Ok(OptionValueView::Button),
        _ => match value {
            None => Err(ParseErrorView::MissingArgument("value")),
            Some(text) => match kind {
                UciOptionKind::Check { .. } => Ok(OptionValueView::Check(text == "true"@)),
                UciOptionKind::Spin { .. } => match typed_value(text, field) {
                    Ok(v) => Ok(OptionValueView::Spin(v)),
                    Err(k) => Err(ParseErrorView::InvalidInteger { field: name, source: k }),
                },
                _ => Ok(OptionValueView::Text(text)),
            },
        },
    }
}

/// An optional text taken by view.
pub open spec fn text_view(value: Option<&str>) -> Option<Seq<char>> {
    match value {
        Some(t) => Some(t@),
        None => None,
    }
}

/// Reads the value of a `setoption` for an option of `kind` called `name`, whose
/// field has the integer type `field` if it is a spin option.
pub fn option_value(name: &'static str, kind: &UciOptionKind, field: IntType, value: Option<&str>) -> (r: Result<OptionValue, UciParseError>)
    ensures
        match r {
            Ok(v) => option_value_model(name, *kind, field, text_view(value)) == Ok::<OptionValueView, ParseErrorView>(v@),
            Err(e) => option_value_model(name, *kind, field, text_view(value)) == Err::<OptionValueView, ParseErrorView>(e@),
        },
{
    if let UciOptionKind::Button = kind {
        return Ok(OptionValue::Button);
    }
    let raw = match value {
        Some(raw) => raw,
        None => {
            return Err(UciParseError::MissingArgument("value"));
        },
    };
    match kind {
        UciOptionKind::Check { .. } => Ok(OptionValue::Check(str_eq(raw, "true"))),
        UciOptionKind::Spin { .. } => match parse_typed(raw, field) {
            Ok(v) => Ok(OptionValue::Spin(v)),
            Err(source) => Err(UciParseError::InvalidInteger { field: name, source }),
        },
        _ => Ok(OptionValue::Text(raw.to_owned())),
    }
}

/// The index of the first declaration called `name`, if any.
pub open spec fn declaration_index(decls: Seq<UciOptionDeclaration>, name: Seq<char>) -> Option<int>
    decreases decls.len(),
{
    if decls.len() == 0 {
        None
    } else {
        match declaration_index(decls.drop_last(), name) {
            Some(i) => Some(i),
            None => if decls.last().name@ == name {
                Some(decls.len() - 1)
            } else {
                None
            },
        }
    }
}

/// What a `setoption name <name> [value <value>]` does to options declared by
/// `decls`, whose fields have the integer types `fields` where they are spin
/// options: the first declaration of that name takes the value; an unknown name
/// is refused.
pub open spec fn setting_model(decls: Seq<UciOptionDeclaration>, fields: Seq<IntType>, name: Seq<char>, value: Option<Seq<char>>) -> Result<(int, OptionValueView), ParseErrorView> {
    match declaration_index(decls, name) {
        None => Err(ParseErrorView::UnknownOption(name)),
        Some(i) => match option_value_model(decls[i].name, decls[i].kind, fields[i], value) {
            Ok(v) => Ok((i, v)),
            Err(e) => Err(e),
        },
    }
}

/// Finds the option that a `setoption` names and reads its new value; `fields`
/// gives, declaration by declaration, the integer type of a spin option's field
/// (it is not read for the other kinds).
pub fn resolve_setting(decls: &Vec<UciOptionDeclaration>, fields: &Vec<IntType>, name: &str, value: Option<&str>) -> (r: Result<(usize, OptionValue), UciParseError>)
    requires
        fields@.len() == decls@.len(),
    ensures
        match r {
            Ok((i, v)) => setting_model(decls@, fields@, name@, text_view(value)) == Ok::<(int, OptionValueView), ParseErrorView>((i as int, v@)),
            Err(e) => setting_model(decls@, fields@, name@, text_view(value)) == Err::<(int, OptionValueView), ParseErrorView>(e@),
        },
{
    let mut i: usize = 0;
    while i < decls.len()
        invariant
            i <= decls@.len(),
            fields@.len() == decls@.len(),
            declaration_index(decls@.take(i as int), name@) is None,
        decreases decls.len() - i,
    {
        assert(decls@.take(i + 1).drop_last() == decls@.take(i as int));
        if str_eq(decls[i].name, name) {
            proof { lemma_declaration_index_prefix(decls@, i + 1, name@); }
            return match option_value(decls[i].name, &decls[i].kind, fields[i], value) {
                Ok(v) => Ok((i, v)),
                Err(e) => Err(e),
            };
        }
        i += 1;
    }
    assert(decls@.take(i as int) == decls@);
    Err(UciParseError::UnknownOption(name.to_owned()))
}

/// A name found in a prefix is found at the same index in the whole list.
proof fn lemma_declaration_index_prefix(decls: Seq<UciOptionDeclaration>, n: int, name: Seq<char>)
    requires
        0 <= n <= decls.len(),
        declaration_index(decls.take(n), name) is Some,
    ensures
        declaration_index(decls, name) == declaration_index(decls.take(n), name),
    decreases decls.len() - n,
{
    if n < decls.len() {
        assert(decls.take(n + 1).drop_last() == decls.take(n));
        lemma_declaration_index_prefix(decls, n + 1, name);
    } else {
        assert(decls.take(n) == decls);
    }
}

/// `declaration_index` finds the first declaration of a name, and finds none
/// exactly when no declaration has it.
pub proof fn lemma_declaration_index(decls: Seq<UciOptionDeclaration>, name: Seq<char>)
    ensures
        declaration_index(decls, name) matches Some(j) ==> 0 <= j < decls.len() && decls[j].name@ == name
            && forall|k: int| 0 <= k < j ==> #[trigger] decls[k].name@ != name,
        declaration_index(decls, name) is None <==> forall|k: int| 0 <= k < decls.len() ==> #[trigger] decls[k].name@ != name,
    decreases decls.len(),
{
    if decls.len() > 0 {
        lemma_declaration_index(decls.drop_last(), name);
        assert forall|k: int| 0 <= k < decls.len() - 1 implies decls.drop_last()[k] == decls[k] by {}
    }
}

/// Every declared option can be set: its name resolves to its first declaration.
pub proof fn lemma_declared_names_resolve(decls: Seq<UciOptionDeclaration>, i: int)
    requires
        0 <= i < decls.len(),
    ensures
        declaration_index(decls, decls[i].name@) matches Some(j) && j <= i && decls[j].name@ == decls[i].name@,
{
    lemma_declaration_index(decls, decls[i].name@);
    if declaration_index(decls, decls[i].name@) is None {
        assert(decls[i].name@ != decls[i].name@);
    }
}

/// A spin option set to a number in decimal takes exactly that number when it is
/// a value of the field's integer type, and refuses it otherwise: a number above
/// the range overflows; one below it overflows the other way on a signed type and
/// has an invalid digit on an unsigned type.
pub proof fn lemma_spin_reads_field_type(name: &'static str, default: i64, min: i64, max: i64, field: IntType, v: int)
    ensures
        int_min(field) <= v <= int_max(field) ==> option_value_model(name, UciOptionKind::Spin { default, min, max }, field, Some(decimal(v)))
            == Ok::<OptionValueView, ParseErrorView>(OptionValueView::Spin(v)),
        v > int_max(field) ==> option_value_model(name, UciOptionKind::Spin { default, min, max }, field, Some(decimal(v)))
            == Err::<OptionValueView, ParseErrorView>(ParseErrorView::InvalidInteger { field: name, source: IntErrorKind::PosOverflow }),
        v < int_min(field) && int_min(field) < 0 ==> option_value_model(name, UciOptionKind::Spin { default, min, max }, field, Some(decimal(v)))
            == Err::<OptionValueView, ParseErrorView>(ParseErrorView::InvalidInteger { field: name, source: IntErrorKind::NegOverflow }),
        v < 0 && int_min(field) == 0 ==> option_value_model(name, UciOptionKind::Spin { default, min, max }, field, Some(decimal(v)))
            == Err::<OptionValueView, ParseErrorView>(ParseErrorView::InvalidInteger { field: name, source: IntErrorKind::InvalidDigit }),
{
    lemma_typed_decimal(v, field);
}

/// Sending back, in a `setoption`, the default that an option's `option` line
/// announces for a spin option sets that option to its default, when the default
/// is a value of the field's integer type.
pub proof fn lemma_announced_default_round_trip(decls: Seq<UciOptionDeclaration>, fields: Seq<IntType>, i: int, default: i64, min: i64, max: i64)
    requires
        0 <= i < decls.len(),
        fields.len() == decls.len(),
        decls[i].kind == (UciOptionKind::Spin { default, min, max }),
        int_min(fields[i]) <= default <= int_max(fields[i]),
        forall|k: int| 0 <= k < i ==> #[trigger] decls[k].name@ != decls[i].name@,
    ensures
        setting_model(decls, fields, decls[i].name@, Some(decimal(default as int)))
            == Ok::<(int, OptionValueView), ParseErrorView>((i, OptionValueView::Spin(default as int))),
{
    lemma_declaration_index(decls, decls[i].name@);
    lemma_declared_names_resolve(decls, i);
    lemma_spin_reads_field_type(decls[i].name, default, min, max, fields[i], default as int);
}

/// The `option` line of a string option ends with its default, exactly as given:
/// `type string default ` and then the default's text, which can be read back
/// from the end of the line.
pub proof fn lemma_string_line_ends_with_default(name: &'static str, default: String)
    ensures
        ({
            let line = declaration_line(name@, UciOptionKind::String { default });
            let prefix = "option name "@ + name@ + " type "@ + "string default "@;
            &&& line.len() == prefix.len() + default@.len()
            &&& line.subrange(0, prefix.len() as int) == prefix
            &&& line.subrange(prefix.len() as int, line.len() as int) == default@
        }),
{
    let line = declaration_line(name@, UciOptionKind::String { default });
    let prefix = "option name "@ + name@ + " type "@ + "string default "@;
    assert(line =~= prefix + default@);
    assert((prefix + default@).subrange(0, prefix.len() as int) == prefix);
    assert((prefix + default@).subrange(prefix.len() as int, line.len() as int) == default@);
}

/// Two string options of one name are announced alike only when their defaults
/// are the same text.
pub proof fn lemma_string_lines_tell_defaults_apart(name: &'static str, a: String, b: String)
    ensures
        declaration_line(name@, UciOptionKind::String { default: a }) == declaration_line(
            name@,
            UciOptionKind::String { default: b },
        ) ==> a@ == b@,
{
    lemma_string_line_ends_with_default(name, a);
    lemma_string_line_ends_with_default(name, b);
}

/// A button takes no value and ignores one that is given.
pub proof fn lemma_button_ignores_value(name: &'static str, field: IntType, value: Option<Seq<char>>)
    ensures
        option_value_model(name, UciOptionKind::Button, field, value) == Ok::<OptionValueView, ParseErrorView>(OptionValueView::Button),
{
}

} // verus!
