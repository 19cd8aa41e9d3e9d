use raxis::effects::{
    build_effect_xml, build_property_xml, parse_clsid, pascal_case, property_type_of,
    EffectRegistry, PropertyDescription, PropertyType,
};
use raxis::text::{push_decimal, str_equal, to_wide_nul};

#[test]
fn decimal_spelling() {
    let mut s = String::from("n=");
    push_decimal(&mut s, 0);
    push_decimal(&mut s, 1234567890);
    assert_eq!(s, "n=01234567890");
    let mut t = String::new();
    push_decimal(&mut t, u64::MAX);
    assert_eq!(t, u64::MAX.to_string());
}

#[test]
fn wide_strings_end_in_nul() {
    assert_eq!(to_wide_nul("Hi"), vec![0x48, 0x69, 0]);
    assert_eq!(to_wide_nul("😀é"), "😀é".encode_utf16().chain([0]).collect::<Vec<u16>>());
    assert_eq!(to_wide_nul(""), vec![0]);
}

#[test]
fn string_equality() {
    assert!(str_equal("abc", "abc"));
    assert!(!str_equal("abc", "abd"));
    assert!(!str_equal("ab", "abc"));
}

#[test]
fn property_types_by_rust_type() {
    assert_eq!(property_type_of("f32").map(|(t, _)| t), Some(PropertyType::Float));
    assert_eq!(property_type_of("bool").map(|(t, _)| t), Some(PropertyType::Bool));
    assert_eq!(property_type_of("String"), None);
    assert_eq!(PropertyType::Float.as_str(), "float");
}

#[test]
fn pascal_case_names() {
    assert_eq!(pascal_case("blur_radius"), "BlurRadius");
    assert_eq!(pascal_case("x"), "X");
    assert_eq!(pascal_case("__a__b"), "AB");
    assert_eq!(pascal_case(""), "");
}

#[test]
fn clsid_errors_report_the_digit_count() {
    assert_eq!(
        parse_clsid("1234"),
        Err("Invalid CLSID format: expected 32 hex chars, got 4".to_string())
    );
    assert_eq!(
        parse_clsid("{12345678-1234-1234-1234-1234567890ab}"),
        Ok(0x12345678_1234_1234_1234_1234567890abu128)
    );
    assert!(parse_clsid("zz345678-1234-1234-1234-1234567890ab").is_err());
}

#[test]
fn effect_registry_records_registrations() {
    let mut reg = EffectRegistry::new();
    assert!(!reg.is_registered(7));
    reg.mark_registered(7);
    reg.mark_registered(7);
    assert!(reg.is_registered(7));
    assert!(!reg.is_registered(8));
    reg.mark_unregistered(7);
    assert!(!reg.is_registered(7));
    reg.mark_registered(1);
    reg.clear();
    assert!(!reg.is_registered(1));
}

#[test]
fn property_xml_layout() {
    let p = PropertyDescription {
        name: "Radius".to_string(),
        display_name: "Blur radius".to_string(),
        property_type: PropertyType::Float,
        default_value: "1".to_string(),
        min_value: Some("0".to_string()),
        max_value: None,
    };
    assert_eq!(
        build_property_xml(&p),
        "<Property name='Radius' type='float'>\n        <Property name='DisplayName' type='string' value='Blur radius'/>\n        <Property name='Default' type='float' value='1'/>\n        <Property name='Min' type='float' value='0'/>\n    </Property>"
    );
}

fn reference_effect_xml(name: &str, author: &str, category: &str, description: &str, inputs: u32, properties: &[String]) -> String {
    let inputs = (0..inputs)
        .map(|i| format!("<Input name='Source{}'/>", i))
        .collect::<Vec<_>>()
        .join("\n        ");
    let properties = properties.join("\n    ");
    format!(
        r#"<?xml version='1.0'?>
<Effect>
    <Property name='DisplayName' type='string' value='{name}'/>
    <Property name='Author' type='string' value='{author}'/>
    <Property name='Category' type='string' value='{category}'/>
    <Property name='Description' type='string' value='{description}'/>
    <Inputs>
        {inputs}
    </Inputs>
    {properties}
</Effect>"#
    )
}

#[test]
fn effect_xml_layout() {
    let props = vec!["<P/>".to_string(), "<Q/>".to_string()];
    assert_eq!(
        build_effect_xml("Gray", "me", "Color", "d", 2, &props),
        reference_effect_xml("Gray", "me", "Color", "d", 2, &props)
    );
    assert_eq!(
        build_effect_xml("", "", "", "", 0, &vec![]),
        reference_effect_xml("", "", "", "", 0, &[])
    );
    assert_eq!(
        build_effect_xml("Blur", "a", "b", "c", 12, &vec!["<R/>".to_string()]),
        reference_effect_xml("Blur", "a", "b", "c", 12, &["<R/>".to_string()])
    );
}
