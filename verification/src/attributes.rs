use vstd::prelude::*;

use crate::integer::{parse_signed, signed_value, IntErrorKind, IntType};
use crate::options::{declaration_line, UciOptionKind};
use crate::text::{chars_of, push_char, str_eq, string_views};

verus! {

/// What `char::to_uppercase` yields for `c`: its Unicode upper-case mapping.
pub uninterp spec fn uppercase_of(c: char) -> Seq<char>;

/// The upper-case mapping of `c`, collected from `char::to_uppercase`. The
/// contract names the mapping and does not spell out Unicode's tables.
#[verifier::external_body]
pub(crate) fn to_uppercase(c: char) -> (r: String)
    ensures
        r@ == uppercase_of(c),
{
    c.to_uppercase().collect()
}

/// `segment` with its first character in upper case.
pub open spec fn capitalized(segment: Seq<char>) -> Seq<char> {
    if segment.len() == 0 {
        seq![]
    } else {
        uppercase_of(segment[0]) + segment.drop_first()
    }
}

/// Splitting on `_` from the left: the segments completed so far and the open one.
pub open spec fn segment_state(s: Seq<char>) -> (Seq<Seq<char>>, Seq<char>)
    decreases s.len(),
{
    if s.len() == 0 {
        (seq![], seq![])
    } else {
        let (done, open) = segment_state(s.drop_last());
        if s.last() == '_' {
            (done.push(open), seq![])
        } else {
            (done, open.push(s.last()))
        }
    }
}

/// The parts of `s` between underscores, empty ones included, as `str::split('_')` gives them.
pub open spec fn segments(s: Seq<char>) -> Seq<Seq<char>> {
    let (done, open) = segment_state(s);
    done.push(open)
}

/// The non-empty segments, each capitalized, one after the other.
pub open spec fn capitalized_join(segs: Seq<Seq<char>>) -> Seq<char>
    decreases segs.len(),
{
    if segs.len() == 0 {
        seq![]
    } else {
        capitalized_join(segs.drop_last()) + capitalized(segs.last())
    }
}

/// `field_name` in PascalCase: `syzygy_path` becomes `SyzygyPath`.
pub open spec fn pascal(field_name: Seq<char>) -> Seq<char> {
    capitalized_join(segments(field_name))
}

/// `segment` with its first character in upper case.
pub fn capitalize(segment: &str) -> (r: String)
    ensures
        r@ == capitalized(segment@),
{
    let chars = chars_of(segment);
    if chars.len() == 0 {
        return String::new();
    }
    let mut out = to_uppercase(chars[0]);
    let mut i: usize = 1;
    while i < chars.len()
        invariant
            1 <= i <= chars.len(),
            chars@ == segment@,
            out@ == uppercase_of(chars@[0]) + chars@.subrange(1, i as int),
        decreases chars.len() - i,
    {
        assert(chars@.subrange(1, i + 1) == chars@.subrange(1, i as int).push(chars@[i as int]));
        push_char(&mut out, chars[i]);
        i += 1;
    }
    assert(chars@.subrange(1, i as int) == segment@.drop_first());
    out
}

/// Appends a finished segment, capitalized.
fn push_segment(out: &mut String, segment: &String)
    ensures
        final(out)@ == old(out)@ + capitalized(segment@),
{
    let part = capitalize(segment.as_str());
    out.append(part.as_str());
}

/// `field_name` in PascalCase: split on `_`, empty parts dropped, each part capitalized.
pub fn pascal_case(field_name: &str) -> (r: String)
    ensures
        r@ == pascal(field_name@),
{
    let chars = chars_of(field_name);
    let mut out = String::new();
    let mut open = String::new();
    let ghost mut done: Seq<Seq<char>> = seq![];
    let mut i: usize = 0;
    while i < chars.len()
        invariant
            i <= chars.len(),
            chars@ == field_name@,
            segment_state(chars@.take(i as int)) == (done, open@),
            out@ == capitalized_join(done),
        decreases chars.len() - i,
    {
        let c = chars[i];
        assert(chars@.take(i + 1).drop_last() == chars@.take(i as int));
        if c == '_' {
            push_segment(&mut out, &open);
            proof {
                assert(done.push(open@).drop_last() == done);
                done = done.push(open@);
            }
            open = String::new();
        } else {
            push_char(&mut open, c);
        }
        i += 1;
    }
    assert(chars@.take(i as int) == field_name@);
    push_segment(&mut out, &open);
    assert(done.push(open@).drop_last() == done);
    out
}

/// The option kind that an attribute flag or a field's type selects.
#[derive(Debug, Clone, Copy, PartialEq, Eq, Structural)]
pub enum KindTag {
    Check,
    Spin,
    Combo,
    Button,
    StringOption,
}

/// A literal given as an attribute's value.
#[derive(Debug, Clone)]
pub enum Literal {
    Bool(bool),
    /// An integer literal, by its digits (and sign) without suffix.
    Int(String),
    Str(String),
    Other,
}

/// The shape of a field's type, as far as the option kind depends on it.
#[derive(Debug, Clone)]
pub enum FieldType {
    /// `()`.
    UnitTuple,
    /// A path type, by the identifier of its last segment.
    Path(String),
    Other,
}

/// The settings that the `uci(...)` attributes of one field gave.
#[derive(Debug, Clone)]
pub struct RawAttributes {
    pub name: Option<String>,
    pub min: Option<i64>,
    pub max: Option<i64>,
    pub default: Option<Literal>,
    pub variants: Option<Vec<String>>,
    pub kind: Option<KindTag>,
}

/// Why the attributes of a field give no option.
#[derive(Debug, Clone, Copy)]
pub enum AttributeError {
    CannotInferKind,
    SpinRequiresDefault,
    SpinRequires(&'static str),
    InvalidInteger(IntErrorKind),
    ComboRequiresDefault,
    ComboRequiresVariants,
    ExpectedStringLiteral,
}

/// The integer types whose fields become spin options.
pub open spec fn is_integer_type_name(name: Seq<char>) -> bool {
    ||| name == "i8"@
    ||| name == "i16"@
    ||| name == "i32"@
    ||| name == "i64"@
    ||| name == "isize"@
    ||| name == "u8"@
    ||| name == "u16"@
    ||| name == "u32"@
    ||| name == "u64"@
    ||| name == "usize"@
}

/// The kind that a path type's last identifier selects.
pub open spec fn kind_of_type_name(name: Seq<char>) -> Option<KindTag> {
    if name == "bool"@ {
        Some(KindTag::Check)
    } else if name == "String"@ {
        Some(KindTag::StringOption)
    } else if is_integer_type_name(name) {
        Some(KindTag::Spin)
    } else {
        None
    }
}

/// The kind that a field's type selects when no flag names one.
pub open spec fn kind_of_type(ty: FieldType) -> Option<KindTag> {
    match ty {
        FieldType::UnitTuple => Some(KindTag::Button),
        FieldType::Path(name) => kind_of_type_name(name@),
        FieldType::Other => None,
    }
}

/// The kind that a path type's last identifier selects.
pub fn infer_from_path(name: &str) -> (r: Option<KindTag>)
    ensures
        r == kind_of_type_name(name@),
{
    if str_eq(name, "bool") {
        Some(KindTag::Check)
    } else if str_eq(name, "String") {
        Some(KindTag::StringOption)
    } else if str_eq(name, "i8") || str_eq(name, "i16") || str_eq(name, "i32") || str_eq(name, "i64")
        || str_eq(name, "isize") || str_eq(name, "u8") || str_eq(name, "u16") || str_eq(name, "u32")
        || str_eq(name, "u64") || str_eq(name, "usize") {
        Some(KindTag::Spin)
    } else {
        None
    }
}

/// The integer type that a path type's last identifier names, if any.
pub open spec fn int_type_of_name(name: Seq<char>) -> Option<IntType> {
    if name == "i8"@ {
        Some(IntType::I8)
    } else if name == "i16"@ {
        Some(IntType::I16)
    } else if name == "i32"@ {
        Some(IntType::I32)
    } else if name == "i64"@ {
        Some(IntType::I64)
    } else if name == "isize"@ {
        Some(IntType::Isize)
    } else if name == "u8"@ {
        Some(IntType::U8)
    } else if name == "u16"@ {
        Some(IntType::U16)
    } else if name == "u32"@ {
        Some(IntType::U32)
    } else if name == "u64"@ {
        Some(IntType::U64)
    } else if name == "usize"@ {
        Some(IntType::Usize)
    } else {
        None
    }
}

/// The integer type of a field's type, if it is one: a spin option's value is
/// read as a value of it.
pub open spec fn int_type_of(ty: FieldType) -> Option<IntType> {
    match ty {
        FieldType::Path(name) => int_type_of_name(name@),
        _ => None,
    }
}

/// The names of integer types are those that name an `IntType`, and none of
/// them selects a kind other than spin.
proof fn lemma_integer_type_names(name: Seq<char>)
    ensures
        int_type_of_name(name) is Some <==> kind_of_type_name(name) == Some(KindTag::Spin),
{
    reveal_strlit("bool");
    reveal_strlit("String");
    reveal_strlit("i8");
    reveal_strlit("i16");
    reveal_strlit("i32");
    reveal_strlit("i64");
    reveal_strlit("isize");
    reveal_strlit("u8");
    reveal_strlit("u16");
    reveal_strlit("u32");
    reveal_strlit("u64");
    reveal_strlit("usize");
    if int_type_of_name(name) is Some || is_integer_type_name(name) {
        assert(name.len() == 2 || name.len() == 3 || name.len() == 5);
        assert(name != "bool"@ && name != "String"@);
    }
}

/// The integer type of a field's type, if it is one; exactly the types that
/// select a spin option have one.
pub fn field_int_type(ty: &FieldType) -> (r: Option<IntType>)
    ensures
        r == int_type_of(*ty),
        r is Some <==> kind_of_type(*ty) == Some(KindTag::Spin),
{
    proof {
        if let FieldType::Path(name) = ty {
            lemma_integer_type_names(name@);
        }
    }
    match ty {
        FieldType::Path(name) => {
            let name = name.as_str();
            if str_eq(name, "i8") {
                Some(IntType::I8)
            } else if str_eq(name, "i16") {
                Some(IntType::I16)
            } else if str_eq(name, "i32") {
                Some(IntType::I32)
            } else if str_eq(name, "i64") {
                Some(IntType::I64)
            } else if str_eq(name, "isize") {
                Some(IntType::Isize)
            } else if str_eq(name, "u8") {
                Some(IntType::U8)
            } else if str_eq(name, "u16") {
                Some(IntType::U16)
            } else if str_eq(name, "u32") {
                Some(IntType::U32)
            } else if str_eq(name, "u64") {
                Some(IntType::U64)
            } else if str_eq(name, "usize") {
                Some(IntType::Usize)
            } else {
                None
            }
        },
        _ => None,
    }
}

/// The kind that a field's type selects when no flag names one.
pub fn infer_kind(ty: &FieldType) -> (r: Option<KindTag>)
    ensures
        r == kind_of_type(*ty),
{
    match ty {
        FieldType::UnitTuple => Some(KindTag::Button),
        FieldType::Path(name) => infer_from_path(name.as_str()),
        FieldType::Other => None,
    }
}

/// A check option is on by default exactly when the default is the literal `true`.
pub open spec fn default_bool_of(raw: RawAttributes) -> bool {
    raw.default matches Some(Literal::Bool(b)) && b
}

/// The default of a spin option: an integer literal.
pub open spec fn default_int_of(raw: RawAttributes) -> Result<int, AttributeError> {
    match raw.default {
        Some(Literal::Int(text)) => match signed_value(text@) {
            Ok(v) => Ok(v),
            Err(k) => Err(AttributeError::InvalidInteger(k)),
        },
        _ => Err(AttributeError::SpinRequiresDefault),
    }
}

/// The default of a combo option: a string literal.
pub open spec fn default_string_of(raw: RawAttributes) -> Result<Seq<char>, AttributeError> {
    match raw.default {
        Some(Literal::Str(text)) => Ok(text@),
        _ => Err(AttributeError::ComboRequiresDefault),
    }
}

/// The default of a string option: a string literal, or empty when none is given.
pub open spec fn default_text_of(raw: RawAttributes) -> Result<Seq<char>, AttributeError> {
    match raw.default {
        None => Ok(seq![]),
        Some(Literal::Str(text)) => Ok(text@),
        Some(_) => Err(AttributeError::ExpectedStringLiteral),
    }
}

/// `UciOptionKind` with its texts as sequences.
#[allow(inconsistent_fields)]
pub enum KindView {
    Check { default: bool },
    Spin { default: int, min: int, max: int },
    Combo { default: Seq<char>, variants: Seq<Seq<char>> },
    Button,
    String { default: Seq<char> },
}

/// An option kind taken by view.
pub open spec fn kind_view(kind: UciOptionKind) -> KindView {
    match kind {
        UciOptionKind::Check { default } => KindView::Check { default },
        UciOptionKind::Spin { default, min, max } => KindView::Spin {
            default: default as int,
            min: min as int,
            max: max as int,
        },
        UciOptionKind::Combo { default, variants } => KindView::Combo {
            default: default@,
            variants: string_views(variants@),
        },
        UciOptionKind::Button => KindView::Button,
        UciOptionKind::String { default } => KindView::String { default: default@ },
    }
}

/// The option kind that a field of type `ty` with attributes `raw` declares: the
/// flag's kind, else the type's; a spin needs an integer default, a minimum and a
/// maximum, in that order; a combo a string default and its variants.
pub open spec fn resolved_kind(ty: FieldType, raw: RawAttributes) -> Result<KindView, AttributeError> {
    let tag = match raw.kind {
        Some(t) => Some(t),
        None => kind_of_type(ty),
    };
    match tag {
        None => Err(AttributeError::CannotInferKind),
        Some(KindTag::Check) => Ok(KindView::Check { default: default_bool_of(raw) }),
        Some(KindTag::Spin) => match default_int_of(raw) {
            Err(e) => Err(e),
            Ok(d) => match (raw.min, raw.max) {
                (None, _) => Err(AttributeError::SpinRequires("min")),
                (Some(_), None) => Err(AttributeError::SpinRequires("max")),
                (Some(lo), Some(hi)) => Ok(KindView::Spin { default: d, min: lo as int, max: hi as int }),
            },
        },
        Some(KindTag::Combo) => match default_string_of(raw) {
            Err(e) => Err(e),
            Ok(d) => match raw.variants {
                None => Err(AttributeError::ComboRequiresVariants),
                Some(vs) => Ok(KindView::Combo { default: d, variants: string_views(vs@) }),
            },
        },
        Some(KindTag::Button) => Ok(KindView::Button),
        Some(KindTag::StringOption) => match default_text_of(raw) {
            Err(e) => Err(e),
            Ok(d) => Ok(KindView::String { default: d }),
        },
    }
}

/// Whether the default is the literal `true`.
pub fn default_bool(raw: &RawAttributes) -> (r: bool)
    ensures
        r == default_bool_of(*raw),
{
    match &raw.default {
        Some(Literal::Bool(b)) => *b,
        _ => false,
    }
}

/// The integer default of a spin option.
pub fn default_int(raw: &RawAttributes) -> (r: Result<i64, AttributeError>)
    ensures
        match r {
            Ok(v) => default_int_of(*raw) == Ok::<int, AttributeError>(v as int),
            Err(e) => default_int_of(*raw) == Err::<int, AttributeError>(e),
        },
{
    match &raw.default {
        Some(Literal::Int(text)) => match parse_signed(text.as_str()) {
            Ok(v) => Ok(v),
            Err(k) => Err(AttributeError::InvalidInteger(k)),
        },
        _ => Err(AttributeError::SpinRequiresDefault),
    }
}

/// The string default of a combo option.
pub fn default_string(raw: &RawAttributes) -> (r: Result<String, AttributeError>)
    ensures
        match r {
            Ok(s) => default_string_of(*raw) == Ok::<Seq<char>, AttributeError>(s@),
            Err(e) => default_string_of(*raw) == Err::<Seq<char>, AttributeError>(e),
        },
{
    match &raw.default {
        Some(Literal::Str(text)) => Ok(text.clone()),
        _ => Err(AttributeError::ComboRequiresDefault),
    }
}

/// The text of a string literal.
pub fn string_literal(literal: &Literal) -> (r: Result<String, AttributeError>)
    ensures
        match literal {
            Literal::Str(text) => r matches Ok(s) && s@ == text@,
            _ => r == Err::<String, AttributeError>(AttributeError::ExpectedStringLiteral),
        },
{
    match literal {
        Literal::Str(text) => Ok(text.clone()),
        _ => Err(AttributeError::ExpectedStringLiteral),
    }
}

/// A required bound of a spin option.
pub fn require_int(value: Option<i64>, label: &'static str) -> (r: Result<i64, AttributeError>)
    ensures
        match value {
            Some(v) => r == Ok::<i64, AttributeError>(v),
            None => r == Err::<i64, AttributeError>(AttributeError::SpinRequires(label)),
        },
{
    match value {
        Some(v) => Ok(v),
        None => Err(AttributeError::SpinRequires(label)),
    }
}

/// The variants of a combo option.
pub fn require_variants(raw: &RawAttributes) -> (r: Result<Vec<String>, AttributeError>)
    ensures
        match raw.variants {
            Some(vs) => r matches Ok(rs) && string_views(rs@) == string_views(vs@),
            None => r == Err::<Vec<String>, AttributeError>(AttributeError::ComboRequiresVariants),
        },
{
    match &raw.variants {
        Some(vs) => {
            let mut out: Vec<String> = Vec::new();
            let mut i: usize = 0;
            while i < vs.len()
                invariant
                    i <= vs@.len(),
                    string_views(out@) == string_views(vs@).take(i as int),
                decreases vs.len() - i,
            {
                let ghost before = out@;
                out.push(vs[i].clone());
                assert(string_views(out@) == string_views(before).push(vs@[i as int]@));
                assert(string_views(vs@).take(i + 1) == string_views(vs@).take(i as int).push(vs@[i as int]@));
                i += 1;
            }
            assert(string_views(vs@).take(i as int) == string_views(vs@));
            Ok(out)
        },
        None => Err(AttributeError::ComboRequiresVariants),
    }
}

/// A resolve result taken by view.
pub open spec fn resolve_result(r: Result<UciOptionKind, AttributeError>) -> Result<KindView, AttributeError> {
    match r {
        Ok(k) => Ok(kind_view(k)),
        Err(e) => Err(e),
    }
}

/// Whether the attributes `raw` make a field of type `ty` a string option: the
/// `string` flag, or no flag on a `String` field.
pub open spec fn declares_string_option(ty: FieldType, raw: RawAttributes) -> bool {
    ||| raw.kind == Some(KindTag::StringOption)
    ||| raw.kind is None && (ty matches FieldType::Path(n) && n@ == "String"@)
}

/// A string option keeps the default its attribute gives: a string literal `s`
/// as the default declares exactly `s`, and no default declares the empty text.
pub proof fn lemma_string_option_keeps_default(ty: FieldType, raw: RawAttributes)
    requires
        declares_string_option(ty, raw),
    ensures
        raw.default matches Some(Literal::Str(s)) ==> resolved_kind(ty, raw) == Ok::<KindView, AttributeError>(
            KindView::String { default: s@ },
        ),
        raw.default is None ==> resolved_kind(ty, raw) == Ok::<KindView, AttributeError>(
            KindView::String { default: seq![] },
        ),
{
    if raw.kind is None {
        lemma_integer_type_names("String"@);
        reveal_strlit("String");
        reveal_strlit("bool");
        assert("String"@.len() == 6 && "bool"@.len() == 4);
        assert(kind_of_type_name("String"@) == Some(KindTag::StringOption));
    }
}

/// A combo option keeps the default its attribute gives: with the `combo` flag,
/// a string literal `s` as the default and variants, it declares exactly `s`
/// and those variants in order.
pub proof fn lemma_combo_option_keeps_default(ty: FieldType, raw: RawAttributes)
    requires
        raw.kind == Some(KindTag::Combo),
    ensures
        raw.default matches Some(Literal::Str(s)) ==> (raw.variants matches Some(vs) ==> resolved_kind(ty, raw)
            == Ok::<KindView, AttributeError>(KindView::Combo { default: s@, variants: string_views(vs@) })),
{
}

/// The `option` line of a field declared a string option with the default `s`
/// ends with `s`: what `resolve_kind` gives is announced with the given default.
pub proof fn lemma_string_option_announces_default(ty: FieldType, raw: RawAttributes, kind: UciOptionKind, name: &'static str)
    requires
        declares_string_option(ty, raw),
        resolve_result(Ok(kind)) == resolved_kind(ty, raw),
    ensures
        raw.default matches Some(Literal::Str(s)) ==> ({
            let line = declaration_line(name@, kind);
            let prefix = "option name "@ + name@ + " type "@ + "string default "@;
            &&& line.len() == prefix.len() + s@.len()
            &&& line.subrange(prefix.len() as int, line.len() as int) == s@
        }),
{
    lemma_string_option_keeps_default(ty, raw);
    if let UciOptionKind::String { default } = kind {
        crate::options::lemma_string_line_ends_with_default(name, default);
    }
}

/// The option kind that a field of type `ty` with attributes `raw` declares.
pub fn resolve_kind(ty: &FieldType, raw: &RawAttributes) -> (r: Result<UciOptionKind, AttributeError>)
    ensures
        resolve_result(r) == resolved_kind(*ty, *raw),
{
    let tag = match raw.kind {
        Some(tag) => tag,
        None => match infer_kind(ty) {
            Some(tag) => tag,
            None => {
                return Err(AttributeError::CannotInferKind);
            },
        },
    };
    match tag {
        KindTag::Check => Ok(UciOptionKind::Check { default: default_bool(raw) }),
        KindTag::Spin => {
            let default = match default_int(raw) {
                Ok(d) => d,
                Err(e) => {
                    return Err(e);
                },
            };
            let min = match require_int(raw.min, "min") {
                Ok(v) => v,
                Err(e) => {
                    return Err(e);
                },
            };
            let max = match require_int(raw.max, "max") {
                Ok(v) => v,
                Err(e) => {
                    return Err(e);
                },
            };
            Ok(UciOptionKind::Spin { default, min, max })
        },
        KindTag::Combo => {
            let default = match default_string(raw) {
                Ok(d) => d,
                Err(e) => {
                    return Err(e);
                },
            };
            let variants = match require_variants(raw) {
                Ok(vs) => vs,
                Err(e) => {
                    return Err(e);
                },
            };
            Ok(UciOptionKind::Combo { default, variants })
        },
        KindTag::Button => Ok(UciOptionKind::Button),
        KindTag::StringOption => {
            let default = match &raw.default {
                None => String::new(),
                Some(literal) => match string_literal(literal) {
                    Ok(s) => s,
                    Err(e) => {
                        return Err(e);
                    },
                },
            };
            Ok(UciOptionKind::String { default })
        },
    }
}

/// The name a field's option is announced under: the `name` attribute, else the
/// field's identifier in PascalCase.
pub fn option_name(raw: &RawAttributes, ident: &str) -> (r: String)
    ensures
        match raw.name {
            Some(n) => r@ == n@,
            None => r@ == pascal(ident@),
        },
{
    match &raw.name {
        Some(n) => n.clone(),
        None => pascal_case(ident),
    }
}

} // verus!
