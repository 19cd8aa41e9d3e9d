//! Metadata of custom pixel-shader effects: CLSIDs, property types and names,
//! the XML that registers an effect, and the registry of registered effects.
use vstd::prelude::*;
use vstd::string::{StrSliceExecFns, StringExecFns};
use std::collections::HashSet;
use crate::text::{decimal, push_char, push_decimal, str_equal};

verus! {

// ---------------------------------------------------------------------------
// Property types
// ---------------------------------------------------------------------------

/// Direct2D property types for XML registration.
#[derive(Clone, Copy, Debug, PartialEq, Eq, Structural)]
pub enum PropertyType {
    Float,
    Int,
    UInt,
    Bool,
    Vector2,
    Vector3,
    Vector4,
}

/// The Direct2D XML name of a property type.
pub open spec fn property_type_name(t: PropertyType) -> Seq<char> {
    match t {
        PropertyType::Float => "float"@,
        PropertyType::Int => "int32"@,
        PropertyType::UInt => "uint32"@,
        PropertyType::Bool => "bool"@,
        PropertyType::Vector2 => "vector2"@,
        PropertyType::Vector3 => "vector3"@,
        PropertyType::Vector4 => "vector4"@,
    }
}

impl PropertyType {
    /// Returns the D2D XML type string.
    pub fn as_str(&self) -> (r: &'static str)
        ensures
            r@ == property_type_name(*self),
    {
        match self {
            PropertyType::Float => "float",
            PropertyType::Int => "int32",
            PropertyType::UInt => "uint32",
            PropertyType::Bool => "bool",
            PropertyType::Vector2 => "vector2",
            PropertyType::Vector3 => "vector3",
            PropertyType::Vector4 => "vector4",
        }
    }
}

/// The property type and byte size of a field whose Rust type is spelled `ty`,
/// or `None` for a type that cannot be an effect property.
pub open spec fn property_type_of_spec(ty: Seq<char>) -> Option<(PropertyType, usize)> {
    if ty == "f32"@ {
        Some((PropertyType::Float, 4))
    } else if ty == "i32"@ {
        Some((PropertyType::Int, 4))
    } else if ty == "u32"@ {
        Some((PropertyType::UInt, 4))
    } else if ty == "bool"@ {
        Some((PropertyType::Bool, 4))
    } else if ty == "[f32 ; 2]"@ || ty == "[f32; 2]"@ {
        Some((PropertyType::Vector2, 8))
    } else if ty == "[f32 ; 3]"@ || ty == "[f32; 3]"@ {
        Some((PropertyType::Vector3, 12))
    } else if ty == "[f32 ; 4]"@ || ty == "[f32; 4]"@ {
        Some((PropertyType::Vector4, 16))
    } else {
        None
    }
}

/// How many 4-byte components a value of property type `t` has.
pub open spec fn component_count(t: PropertyType) -> nat {
    match t {
        PropertyType::Vector2 => 2,
        PropertyType::Vector3 => 3,
        PropertyType::Vector4 => 4,
        _ => 1,
    }
}

/// The spelling `[f32; n]` of an array type, with `n` the digit `digit`,
/// and with a space before the `;` where `spaced`.
pub open spec fn f32_array_spelling(digit: char, spaced: bool) -> Seq<char> {
    if spaced {
        seq!['[', 'f', '3', '2', ' ', ';', ' ', digit, ']']
    } else {
        seq!['[', 'f', '3', '2', ';', ' ', digit, ']']
    }
}

/// A property's size is the byte size of its Rust type: four bytes a
/// component. `f32`, `i32`, `u32` and `bool` are the scalar float, signed,
/// unsigned and boolean types. An array `[f32; n]` of two to four floats, spelled either way,
/// is a vector of `n` components taking `4 * n` bytes.
pub proof fn lemma_property_sizes(ty: Seq<char>, digit: char, spaced: bool)
    ensures
        property_type_of_spec(ty) matches Some((t, size)) ==> size == 4 * component_count(t),
        property_type_of_spec(seq!['f', '3', '2']) == Some((PropertyType::Float, 4usize)),
        property_type_of_spec(seq!['i', '3', '2']) == Some((PropertyType::Int, 4usize)),
        property_type_of_spec(seq!['u', '3', '2']) == Some((PropertyType::UInt, 4usize)),
        property_type_of_spec(seq!['b', 'o', 'o', 'l']) == Some((PropertyType::Bool, 4usize)),
        '2' <= digit <= '4' ==> (property_type_of_spec(f32_array_spelling(digit, spaced)) matches Some((t, size))
            && component_count(t) == digit as int - '0' as int && size == 4 * (digit as int - '0' as int)),
{
    reveal_strlit("f32");
    reveal_strlit("i32");
    reveal_strlit("u32");
    reveal_strlit("bool");
    reveal_strlit("[f32 ; 2]");
    reveal_strlit("[f32; 2]");
    reveal_strlit("[f32 ; 3]");
    reveal_strlit("[f32; 3]");
    reveal_strlit("[f32 ; 4]");
    reveal_strlit("[f32; 4]");
    assert(seq!['f', '3', '2'] =~= "f32"@);
    assert(seq!['i', '3', '2'][0] != "f32"@[0]);
    assert(seq!['i', '3', '2'] =~= "i32"@);
    assert(seq!['u', '3', '2'][0] != "f32"@[0]);
    assert(seq!['u', '3', '2'][0] != "i32"@[0]);
    assert(seq!['u', '3', '2'] =~= "u32"@);
    assert(seq!['b', 'o', 'o', 'l'] =~= "bool"@);
    if '2' <= digit <= '4' {
        let sp = f32_array_spelling(digit, spaced);
        assert(sp.len() != 3 && sp.len() != 4);
        if spaced {
            if digit == '2' {
                assert(sp =~= "[f32 ; 2]"@);
            } else if digit == '3' {
                assert(sp[7] != "[f32 ; 2]"@[7]);
                assert(sp =~= "[f32 ; 3]"@);
            } else {
                assert(sp[7] != "[f32 ; 2]"@[7]);
                assert(sp[7] != "[f32 ; 3]"@[7]);
                assert(sp =~= "[f32 ; 4]"@);
            }
        } else {
            assert(sp.len() != "[f32 ; 2]"@.len());
            if digit == '2' {
                assert(sp =~= "[f32; 2]"@);
            } else if digit == '3' {
                assert(sp[6] != "[f32; 2]"@[6]);
                assert(sp =~= "[f32; 3]"@);
            } else {
                assert(sp[6] != "[f32; 2]"@[6]);
                assert(sp[6] != "[f32; 3]"@[6]);
                assert(sp =~= "[f32; 4]"@);
            }
        }
    }
}

/// Maps the spelling of a field's Rust type to its property type and size.
pub fn property_type_of(ty: &str) -> (r: Option<(PropertyType, usize)>)
    ensures
        r == property_type_of_spec(ty@),
{
    if str_equal(ty, "f32") {
        Some((PropertyType::Float, 4))
    } else if str_equal(ty, "i32") {
        Some((PropertyType::Int, 4))
    } else if str_equal(ty, "u32") {
        Some((PropertyType::UInt, 4))
    } else if str_equal(ty, "bool") {
        Some((PropertyType::Bool, 4))
    } else if str_equal(ty, "[f32 ; 2]") || str_equal(ty, "[f32; 2]") {
        Some((PropertyType::Vector2, 8))
    } else if str_equal(ty, "[f32 ; 3]") || str_equal(ty, "[f32; 3]") {
        Some((PropertyType::Vector3, 12))
    } else if str_equal(ty, "[f32 ; 4]") || str_equal(ty, "[f32; 4]") {
        Some((PropertyType::Vector4, 16))
    } else {
        None
    }
}

// ---------------------------------------------------------------------------
// Display names
// ---------------------------------------------------------------------------

/// What `char::to_uppercase` yields for `c` (the Unicode upper-case mapping).
pub uninterp spec fn char_upper(c: char) -> Seq<char>;

/// Calls `char::to_uppercase`; the result is named `char_upper`.
#[verifier::external_body]
fn to_uppercase(c: char) -> (r: Vec<char>)
    ensures
        r@ == char_upper(c),
{
    c.to_uppercase().collect()
}

/// The PascalCase spelling of `cs[i..]`: underscores are dropped and the first
/// character of each underscore-separated part is upper-cased.
pub open spec fn pascal_from(cs: Seq<char>, i: int, at_start: bool) -> Seq<char>
    decreases cs.len() - i,
{
    if i < 0 || i >= cs.len() {
        Seq::empty()
    } else if cs[i] == '_' {
        pascal_from(cs, i + 1, true)
    } else if at_start {
        char_upper(cs[i]) + pascal_from(cs, i + 1, false)
    } else {
        seq![cs[i]] + pascal_from(cs, i + 1, false)
    }
}

/// Converts a snake_case field name to the PascalCase display name of its property.
pub fn pascal_case(name: &str) -> (r: String)
    ensures
        r@ == pascal_from(name@, 0, true),
{
    let n = name.unicode_len();
    let mut out = String::new();
    let mut i: usize = 0;
    let mut at_start = true;
    while i < n
        invariant
            n == name@.len(),
            i <= n,
            pascal_from(name@, 0, true) == out@ + pascal_from(name@, i as int, at_start),
        decreases n - i,
    {
        let c = name.get_char(i);
        let ghost old_out = out@;
        if c == '_' {
            at_start = true;
        } else if at_start {
            let up = to_uppercase(c);
            let mut k: usize = 0;
            while k < up.len()
                invariant
                    k <= up.len(),
                    out@ == old_out + up@.take(k as int),
                decreases up.len() - k,
            {
                push_char(&mut out, up[k]);
                assert(up@.take(k + 1) =~= up@.take(k as int).push(up@[k as int]));
                k += 1;
            }
            assert(up@.take(up.len() as int) =~= up@);
            assert(old_out + (up@ + pascal_from(name@, i + 1, false)) =~= out@ + pascal_from(
                name@,
                i + 1,
                false,
            ));
            at_start = false;
        } else {
            push_char(&mut out, c);
            assert(old_out + (seq![c] + pascal_from(name@, i + 1, false)) =~= out@ + pascal_from(
                name@,
                i + 1,
                false,
            ));
        }
        i += 1;
    }
    assert(out@ + Seq::<char>::empty() =~= out@);
    out
}

// ---------------------------------------------------------------------------
// CLSIDs
// ---------------------------------------------------------------------------

pub open spec fn is_hex_digit(c: char) -> bool {
    ('0' <= c && c <= '9') || ('a' <= c && c <= 'f') || ('A' <= c && c <= 'F')
}

pub open spec fn hex_value(c: char) -> nat {
    if '0' <= c && c <= '9' {
        (c as nat - '0' as nat) as nat
    } else if 'a' <= c && c <= 'f' {
        (c as nat - 'a' as nat + 10) as nat
    } else {
        (c as nat - 'A' as nat + 10) as nat
    }
}

/// The hexadecimal digits of `cs`, in order.
pub open spec fn hex_digits(cs: Seq<char>) -> Seq<char>
    decreases cs.len(),
{
    if cs.len() == 0 {
        Seq::empty()
    } else if is_hex_digit(cs.last()) {
        hex_digits(cs.drop_last()).push(cs.last())
    } else {
        hex_digits(cs.drop_last())
    }
}

/// The number spelled by the hexadecimal digits `ds`.
pub open spec fn hex_number(ds: Seq<char>) -> nat
    decreases ds.len(),
{
    if ds.len() == 0 {
        0
    } else {
        hex_number(ds.drop_last()) * 16 + hex_value(ds.last())
    }
}

pub open spec fn pow16(n: nat) -> nat
    decreases n,
{
    if n == 0 {
        1
    } else {
        16 * pow16((n - 1) as nat)
    }
}

proof fn lemma_hex_number_bound(ds: Seq<char>)
    requires
        forall|k: int| 0 <= k < ds.len() ==> is_hex_digit(#[trigger] ds[k]),
    ensures
        hex_number(ds) < pow16(ds.len()),
    decreases ds.len(),
{
    if ds.len() > 0 {
        let p = ds.drop_last();
        assert forall|k: int| 0 <= k < p.len() implies is_hex_digit(#[trigger] p[k]) by {
            assert(p[k] == ds[k]);
        }
        lemma_hex_number_bound(p);
        let h = hex_number(p);
        let v = hex_value(ds.last());
        assert(is_hex_digit(ds[ds.len() - 1]));
        assert(v < 16);
        let q = pow16(p.len());
        assert(h * 16 + v < q * 16) by (nonlinear_arith)
            requires
                h < q,
                v < 16,
        ;
    }
}

/// The message for a CLSID that does not hold exactly 32 hex digits.
pub open spec fn clsid_length_message(count: nat) -> Seq<char> {
    "Invalid CLSID format: expected 32 hex chars, got "@ + decimal(count)
}

/// Parses a CLSID string such as `A1B2C3D4-E5F6-7890-ABCD-EF1234567890` into
/// its 128-bit value: every character that is not a hex digit is ignored, and
/// exactly 32 hex digits must remain.
pub fn parse_clsid(clsid: &str) -> (r: Result<u128, String>)
    ensures
        hex_digits(clsid@).len() == 32 ==> r == Ok::<u128, String>(
            hex_number(hex_digits(clsid@)) as u128,
        ),
        hex_digits(clsid@).len() != 32 ==> (r matches Err(m) && m@ == clsid_length_message(
            hex_digits(clsid@).len(),
        )),
{
    let n = clsid.unicode_len();
    let mut digits: Vec<char> = Vec::new();
    let mut i: usize = 0;
    while i < n
        invariant
            n == clsid@.len(),
            i <= n,
            digits@ == hex_digits(clsid@.take(i as int)),
            digits.len() <= i,
            forall|m: int| 0 <= m < digits@.len() ==> is_hex_digit(#[trigger] digits@[m]),
        decreases n - i,
    {
        let c = clsid.get_char(i);
        proof {
            let t = clsid@.take(i as int);
            assert(clsid@.take(i + 1).drop_last() =~= t);
        }
        if ('0' <= c && c <= '9') || ('a' <= c && c <= 'f') || ('A' <= c && c <= 'F') {
            digits.push(c);
        }
        i += 1;
    }
    assert(clsid@.take(n as int) =~= clsid@);
    if digits.len() != 32 {
        let mut m = String::from_str("Invalid CLSID format: expected 32 hex chars, got ");
        push_decimal(&mut m, digits.len() as u64);
        return Err(m);
    }
    let mut v: u128 = 0;
    let mut k: usize = 0;
    while k < 32
        invariant
            digits.len() == 32,
            k <= 32,
            forall|m: int| 0 <= m < digits@.len() ==> is_hex_digit(#[trigger] digits@[m]),
            v as nat == hex_number(digits@.take(k as int)),
            (v as nat) < pow16(k as nat),
        decreases 32 - k,
    {
        let c = digits[k];
        let d: u128 = if '0' <= c && c <= '9' {
            (c as u32 - '0' as u32) as u128
        } else if 'a' <= c && c <= 'f' {
            (c as u32 - 'a' as u32 + 10) as u128
        } else {
            (c as u32 - 'A' as u32 + 10) as u128
        };
        proof {
            let t = digits@.take(k as int);
            assert(digits@.take(k + 1).drop_last() =~= t);
            assert(is_hex_digit(digits@[k as int]));
            assert(d as nat == hex_value(c));
            lemma_hex_step(v as nat, d as nat, k as nat);
        }
        v = v * 16 + d;
        k += 1;
    }
    assert(digits@.take(32) =~= digits@);
    Ok(v)
}

proof fn lemma_hex_step(v: nat, d: nat, k: nat)
    requires
        v < pow16(k),
        d < 16,
        k < 32,
    ensures
        v * 16 + d < pow16(k + 1),
        pow16(k + 1) <= 0x1_0000_0000_0000_0000_0000_0000_0000_0000,
{
    assert(pow16(k + 1) == 16 * pow16(k));
    assert(v * 16 + d < pow16(k) * 16) by (nonlinear_arith)
        requires
            v < pow16(k),
            d < 16,
    ;
    lemma_pow16_mono(k + 1, 32);
    assert(pow16(32) == 0x1_0000_0000_0000_0000_0000_0000_0000_0000) by {
        reveal_with_fuel(pow16, 33);
    }
}

proof fn lemma_pow16_mono(a: nat, b: nat)
    requires
        a <= b,
    ensures
        pow16(a) <= pow16(b),
    decreases b - a,
{
    if a < b {
        lemma_pow16_mono(a, (b - 1) as nat);
        assert(pow16(b) == 16 * pow16((b - 1) as nat));
    }
}

// ---------------------------------------------------------------------------
// Registration XML
// ---------------------------------------------------------------------------

/// A property as its registration XML describes it; the default, minimum and
/// maximum are given already spelled as XML values.
#[derive(Clone, Debug)]
pub struct PropertyDescription {
    pub name: String,
    pub display_name: String,
    pub property_type: PropertyType,
    pub default_value: String,
    pub min_value: Option<String>,
    pub max_value: Option<String>,
}

/// `\n        <Property name='{label}' type='{ty}' value='{value}'/>`
pub open spec fn value_line(label: Seq<char>, ty: Seq<char>, value: Seq<char>) -> Seq<char> {
    "\n        <Property name='"@ + label + "' type='"@ + ty + "' value='"@ + value + "'/>"@
}

/// The registration XML of one property.
pub open spec fn property_xml(
    name: Seq<char>,
    display_name: Seq<char>,
    ty: PropertyType,
    default_value: Seq<char>,
    min_value: Option<Seq<char>>,
    max_value: Option<Seq<char>>,
) -> Seq<char> {
    let t = property_type_name(ty);
    "<Property name='"@ + name + "' type='"@ + t + "'>"@ + value_line(
        "DisplayName"@,
        "string"@,
        display_name,
    ) + value_line("Default"@, t, default_value) + match min_value {
        Some(v) => value_line("Min"@, t, v),
        None => Seq::empty(),
    } + match max_value {
        Some(v) => value_line("Max"@, t, v),
        None => Seq::empty(),
    } + "\n    </Property>"@
}

pub open spec fn opt_view(o: Option<String>) -> Option<Seq<char>> {
    match o {
        Some(s) => Some(s@),
        None => None,
    }
}

fn push_value_line(xml: &mut String, label: &str, ty: &str, value: &str)
    ensures
        final(xml)@ == old(xml)@ + value_line(label@, ty@, value@),
{
    xml.append("\n        <Property name='");
    xml.append(label);
    xml.append("' type='");
    xml.append(ty);
    xml.append("' value='");
    xml.append(value);
    xml.append("'/>");
    assert(final(xml)@ =~= old(xml)@ + value_line(label@, ty@, value@));
}

/// Builds the registration XML of a single property.
pub fn build_property_xml(prop: &PropertyDescription) -> (xml: String)
    ensures
        xml@ == property_xml(
            prop.name@,
            prop.display_name@,
            prop.property_type,
            prop.default_value@,
            opt_view(prop.min_value),
            opt_view(prop.max_value),
        ),
{
    let ty = prop.property_type.as_str();
    let mut xml = String::from_str("<Property name='");
    xml.append(prop.name.as_str());
    xml.append("' type='");
    xml.append(ty);
    xml.append("'>");
    let ghost head = xml@;
    push_value_line(&mut xml, "DisplayName", "string", prop.display_name.as_str());
    push_value_line(&mut xml, "Default", ty, prop.default_value.as_str());
    let ghost mid = xml@;
    match &prop.min_value {
        Some(v) => push_value_line(&mut xml, "Min", ty, v.as_str()),
        None => {},
    }
    let ghost with_min = xml@;
    match &prop.max_value {
        Some(v) => push_value_line(&mut xml, "Max", ty, v.as_str()),
        None => {},
    }
    let ghost with_max = xml@;
    xml.append("\n    </Property>");
    proof {
        let t = property_type_name(prop.property_type);
        let min_part = match opt_view(prop.min_value) {
            Some(v) => value_line("Min"@, t, v),
            None => Seq::<char>::empty(),
        };
        let max_part = match opt_view(prop.max_value) {
            Some(v) => value_line("Max"@, t, v),
            None => Seq::<char>::empty(),
        };
        assert(with_min =~= mid + min_part);
        assert(with_max =~= with_min + max_part);
        assert(xml@ =~= property_xml(
            prop.name@,
            prop.display_name@,
            prop.property_type,
            prop.default_value@,
            opt_view(prop.min_value),
            opt_view(prop.max_value),
        ));
    }
    xml
}

/// `<Input name='Source{i}'/>`
pub open spec fn input_xml(i: nat) -> Seq<char> {
    "<Input name='Source"@ + decimal(i) + "'/>"@
}

/// The input declarations for `n` inputs, joined by `sep`.
pub open spec fn inputs_xml(n: nat, sep: Seq<char>) -> Seq<char>
    decreases n,
{
    if n == 0 {
        Seq::empty()
    } else if n == 1 {
        input_xml(0)
    } else {
        inputs_xml((n - 1) as nat, sep) + sep + input_xml((n - 1) as nat)
    }
}

/// The strings `parts`, joined by `sep`.
pub open spec fn join(parts: Seq<Seq<char>>, sep: Seq<char>) -> Seq<char>
    decreases parts.len(),
{
    if parts.len() == 0 {
        Seq::empty()
    } else if parts.len() == 1 {
        parts[0]
    } else {
        join(parts.drop_last(), sep) + sep + parts.last()
    }
}

/// The registration XML of an effect.
pub open spec fn effect_xml(
    name: Seq<char>,
    author: Seq<char>,
    category: Seq<char>,
    description: Seq<char>,
    input_count: nat,
    properties: Seq<Seq<char>>,
) -> Seq<char> {
    "<?xml version='1.0'?>\n<Effect>\n    <Property name='DisplayName' type='string' value='"@
        + name + "'/>\n    <Property name='Author' type='string' value='"@ + author
        + "'/>\n    <Property name='Category' type='string' value='"@ + category
        + "'/>\n    <Property name='Description' type='string' value='"@ + description
        + "'/>\n    <Inputs>\n        "@ + inputs_xml(input_count, "\n        "@)
        + "\n    </Inputs>\n    "@ + join(properties, "\n    "@) + "\n</Effect>"@
}

/// The views of the property XML strings.
pub open spec fn views(v: Seq<String>) -> Seq<Seq<char>> {
    v.map_values(|s: String| s@)
}

fn push_input(xml: &mut String, i: u32)
    ensures
        final(xml)@ == old(xml)@ + input_xml(i as nat),
{
    xml.append("<Input name='Source");
    push_decimal(xml, i as u64);
    xml.append("'/>");
    assert(final(xml)@ =~= old(xml)@ + input_xml(i as nat));
}

/// Builds the registration XML for an effect with `input_count` inputs and the
/// given property XML blocks (see `build_property_xml`).
pub fn build_effect_xml(
    name: &str,
    author: &str,
    category: &str,
    description: &str,
    input_count: u32,
    properties: &Vec<String>,
) -> (xml: String)
    ensures
        xml@ == effect_xml(name@, author@, category@, description@, input_count as nat, views(properties@)),
{
    let mut xml = String::from_str(
        "<?xml version='1.0'?>\n<Effect>\n    <Property name='DisplayName' type='string' value='",
    );
    xml.append(name);
    xml.append("'/>\n    <Property name='Author' type='string' value='");
    xml.append(author);
    xml.append("'/>\n    <Property name='Category' type='string' value='");
    xml.append(category);
    xml.append("'/>\n    <Property name='Description' type='string' value='");
    xml.append(description);
    xml.append("'/>\n    <Inputs>\n        ");
    let ghost head = xml@;
    let mut i: u32 = 0;
    while i < input_count
        invariant
            i <= input_count,
            xml@ == head + inputs_xml(i as nat, "\n        "@),
        decreases input_count - i,
    {
        let ghost before = xml@;
        if i > 0 {
            xml.append("\n        ");
        }
        push_input(&mut xml, i);
        proof {
            if i == 0 {
                assert(xml@ =~= head + inputs_xml(1, "\n        "@));
            } else {
                assert(xml@ =~= head + inputs_xml(i as nat + 1, "\n        "@));
            }
        }
        i += 1;
    }
    xml.append("\n    </Inputs>\n    ");
    let ghost mid = xml@;
    let mut k: usize = 0;
    while k < properties.len()
        invariant
            k <= properties.len(),
            xml@ == mid + join(views(properties@).take(k as int), "\n    "@),
        decreases properties.len() - k,
    {
        let ghost ps = views(properties@);
        if k > 0 {
            xml.append("\n    ");
        }
        xml.append(properties[k].as_str());
        proof {
            assert(ps.take(k + 1).drop_last() =~= ps.take(k as int));
            assert(ps[k as int] == properties@[k as int]@);
            if k == 0 {
                assert(ps.take(1) =~= seq![ps[0]]);
                assert(xml@ =~= mid + join(ps.take(1), "\n    "@));
            } else {
                assert(xml@ =~= mid + join(ps.take(k + 1), "\n    "@));
            }
        }
        k += 1;
    }
    assert(views(properties@).take(properties.len() as int) =~= views(properties@));
    xml.append("\n</Effect>");
    assert(xml@ =~= effect_xml(
        name@,
        author@,
        category@,
        description@,
        input_count as nat,
        views(properties@),
    ));
    xml
}

// ---------------------------------------------------------------------------
// Registry
// ---------------------------------------------------------------------------

/// Tracks which effect CLSIDs have been registered with Direct2D, so that an
/// effect type is registered once.
pub struct EffectRegistry {
    registered: HashSet<u128>,
}

impl EffectRegistry {
    /// The CLSIDs currently recorded as registered.
    pub closed spec fn view(&self) -> Set<u128> {
        self.registered@
    }

    /// Creates a new empty effect registry.
    pub fn new() -> (r: Self)
        ensures
            r.view() == Set::<u128>::empty(),
    {
        EffectRegistry { registered: HashSet::new() }
    }

    /// Whether the effect `clsid` is recorded as registered.
    pub fn is_registered(&self, clsid: u128) -> (r: bool)
        ensures
            r == self.view().contains(clsid),
    {
        broadcast use vstd::std_specs::hash::group_hash_axioms;
        self.registered.contains(&clsid)
    }

    /// Records that the effect `clsid` has been registered.
    pub fn mark_registered(&mut self, clsid: u128)
        ensures
            final(self).view() == old(self).view().insert(clsid),
    {
        broadcast use vstd::std_specs::hash::group_hash_axioms;
        self.registered.insert(clsid);
    }

    /// Records that the effect `clsid` has been unregistered.
    pub fn mark_unregistered(&mut self, clsid: u128)
        ensures
            final(self).view() == old(self).view().remove(clsid),
    {
        broadcast use vstd::std_specs::hash::group_hash_axioms;
        self.registered.remove(&clsid);
    }

    /// Clears the registry without unregistering effects.
    pub fn clear(&mut self)
        ensures
            final(self).view() == Set::<u128>::empty(),
    {
        broadcast use vstd::std_specs::hash::group_hash_axioms;
        self.registered.clear();
    }
}

/// Registering an effect makes it registered, leaves every other effect as
/// it was, and registering it again changes nothing.
pub proof fn lemma_registration_idempotent(before: Set<u128>, clsid: u128, other: u128)
    requires
        other != clsid,
    ensures
        before.insert(clsid).contains(clsid),
        before.insert(clsid).contains(other) == before.contains(other),
        before.insert(clsid).insert(clsid) == before.insert(clsid),
        before.insert(clsid).remove(clsid).contains(clsid) == false,
{
    assert(before.insert(clsid).insert(clsid) =~= before.insert(clsid));
}

} // verus!
