use sui_data_loader::error::MalformedRecord;
use sui_data_loader::type_path::parse_type_path;

fn strings(items: &[&str]) -> Vec<String> {
    items.iter().map(|s| s.to_string()).collect()
}

#[test]
fn plain_path_has_three_parts_and_no_generics() {
    let t = parse_type_path("0x2::coin::Coin").unwrap();
    assert_eq!(t.full, "0x2::coin::Coin");
    assert_eq!(t.package, "0x2");
    assert_eq!(t.module, "coin");
    assert_eq!(t.struct_, "Coin");
    assert!(t.generics.is_empty());
}

#[test]
fn one_generic_argument_is_a_nested_path() {
    let t = parse_type_path("0x2::coin::Coin<0x2::sui::SUI>").unwrap();
    assert_eq!(t.package, "0x2");
    assert_eq!(t.module, "coin");
    assert_eq!(t.struct_, "Coin");
    assert_eq!(t.generics, strings(&["0x2::sui::SUI"]));
}

#[test]
fn two_generic_arguments_are_cut_at_the_comma() {
    let t = parse_type_path("p::m::s<a,b>").unwrap();
    assert_eq!(t.struct_, "s");
    assert_eq!(t.generics, strings(&["a", "b"]));
}

#[test]
fn nested_comma_does_not_cut() {
    let t = parse_type_path("p::m::s<q::n::t<x,y>>").unwrap();
    assert_eq!(t.generics, strings(&["q::n::t<x,y>"]));
    let t = parse_type_path("p::m::s<q::n::t<x>>").unwrap();
    assert_eq!(t.generics, strings(&["q::n::t<x>"]));
    let t = parse_type_path("p::m::s<a<b,c>,d<e<f,g>,h>,i>").unwrap();
    assert_eq!(t.generics, strings(&["a<b,c>", "d<e<f,g>,h>", "i"]));
}

#[test]
fn nothing_is_trimmed() {
    let t = parse_type_path("0x2::table::Table<u64, vector<u8>>").unwrap();
    assert_eq!(t.generics, strings(&["u64", " vector<u8>"]));
}

#[test]
fn texts_outside_the_grammar_are_refused() {
    for bad in [
        "",
        "a",
        "a::b",
        "a::b::",
        "::b::c",
        "a::::c",
        "a:b::c",
        "a::b::c::d",
        "a::b::c<",
        "a::b::c<>",
        "a::b::c<d",
        "a::b::c<d>>",
        "a::b::c<d>e",
        "a::b::c<d,>",
        "a::b::c<,d>",
        "a::b::c<d<e>",
        "a::b::c<d>,e",
        "a::b::c<x::y>",
        "a::b::c>",
        "a::b::c,d",
        "a<b>::c::d",
    ] {
        assert_eq!(parse_type_path(bad), Err(MalformedRecord::InvalidTypePath), "{:?}", bad);
    }
}

#[test]
fn writing_out_a_parsed_path_gives_the_text_back() {
    for text in [
        "p::m::s",
        "p::m::s<a,b>",
        "p::m::s<q::n::t<x>>",
        "0x2::coin::Coin<0x2::sui::SUI>",
        "0x2::table::Table<u64, vector<u8>>",
        "0x2::dynamic_field::Field<0x1::string::String,0x2::balance::Balance<0x2::sui::SUI>>",
    ] {
        let t = parse_type_path(text).unwrap();
        assert_eq!(t.full, text);
        assert_eq!(t.to_text(), text);
    }
}

#[test]
fn every_generic_argument_is_accepted_as_a_term_of_its_own() {
    let t = parse_type_path("p::m::s<q::n::t<x,y>,u64,r::o::v>").unwrap();
    assert_eq!(t.generics, strings(&["q::n::t<x,y>", "u64", "r::o::v"]));
    let nested = parse_type_path(&t.generics[0]).unwrap();
    assert_eq!(nested.struct_, "t");
    assert_eq!(nested.generics, strings(&["x", "y"]));
    assert_eq!(parse_type_path(&t.generics[1]), Err(MalformedRecord::InvalidTypePath));
    assert!(parse_type_path(&t.generics[2]).unwrap().generics.is_empty());
}

#[test]
fn characters_beyond_ascii_are_counted_as_one() {
    let t = parse_type_path("pä::mö::sü<ñ,é>").unwrap();
    assert_eq!(t.package, "pä");
    assert_eq!(t.module, "mö");
    assert_eq!(t.struct_, "sü");
    assert_eq!(t.generics, strings(&["ñ", "é"]));
    assert_eq!(t.to_text(), "pä::mö::sü<ñ,é>");
}

#[test]
fn a_copy_of_a_path_equals_the_path() {
    let t = parse_type_path("a::b::c<d,e<f>>").unwrap();
    assert_eq!(t.clone(), t);
}

#[test]
fn deep_nesting_is_examined_without_deep_calls() {
    let depth = 10_000;
    let mut text = String::from("p::m::s");
    for _ in 0..depth {
        text.push_str("<x");
    }
    for _ in 0..depth {
        text.push('>');
    }
    let t = parse_type_path(&text).unwrap();
    assert_eq!(t.struct_, "s");
    assert_eq!(t.generics.len(), 1);
    assert_eq!(t.generics[0].len(), text.len() - "p::m::s<>".len());
    text.pop();
    assert_eq!(parse_type_path(&text), Err(MalformedRecord::InvalidTypePath));
}

#[test]
fn long_argument_lists_are_cut_in_full() {
    let arguments: Vec<String> = (0..2_000).map(|i| format!("0x{:x}::m::T{}<u8,u{}>", i, i, i)).collect();
    let text = format!("p::m::s<{}>", arguments.join(","));
    let t = parse_type_path(&text).unwrap();
    assert_eq!(t.generics, arguments);
    assert_eq!(t.to_text(), text);
}
