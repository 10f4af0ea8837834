use spuri_io::youtube::cipher::{
    apply_signature_transformation, JSFunction, JSFunctionCall, TransformType,
};
use spuri_io::regex_calls::{escape, is_meta};
use spuri_io::youtube::extract::{
    base_js_url, signature_function_calls, signature_function_name,
    signature_transform_function_name, signature_transform_function_parts, sts,
};

/// The parts of a client script that the extraction reads.
fn client_script() -> String {
    let mut script = String::new();
    script.push_str("var _yt_player={};(function(g){var window=this;");
    script.push_str("var pL={wx:function(a,b){var c=a[0];a[0]=a[b%a.length];a[b%a.length]=c},\n");
    script.push_str("dL:function(a){a.reverse()},\n");
    script.push_str("Hy:function(a,b){a.splice(0,b)}};");
    script.push_str("qL=function(a){a=a.split(\"\");pL.wx(a,34);pL.dL(a,58);pL.wx(a,68);pL.Hy(a,1);pL.wx(a,38);pL.dL(a,46);return a.join(\"\")};\n");
    script.push_str("var rL=function(a,b,c){b=void 0===b?\"\":b;c=void 0===c?\"\":c;a=new g.hH(a,!0);");
    script.push_str("var d=a.g;c&&d.set(b,encodeURIComponent(qL(c)));return a};\n");
    script.push_str("g.k.Zn=function(){return{cver:\"1.20181212\",sts:17885,el:\"embedded\"}};");
    script.push_str("})(_yt_player);\n");
    script
}

/// The part of an embed page that names the client script.
fn embed_page() -> String {
    let mut page = String::new();
    page.push_str("<!DOCTYPE html><html><head><title>YouTube</title>");
    page.push_str("<script src=\"/yts/jsbin/www-embed-player-vflvpFaan/www-embed-player.js\"></script>");
    page.push_str("<script src=\"/yts/jsbin/player-vflpOZkP0/en_US/base.js\" name=\"player/base\"></script>");
    page.push_str("</head><body></body></html>");
    page
}

fn call(name: &str, params: &[&str]) -> JSFunctionCall {
    JSFunctionCall {
        name: name.to_string(),
        params: params.iter().map(|x| x.to_string()).collect(),
    }
}

fn function(name: &str, params: &[&str], body: &str) -> JSFunction {
    JSFunction {
        name: Some(name.to_string()),
        params: params.iter().map(|x| x.to_string()).collect(),
        body: body.to_string(),
    }
}

const SWAP_BODY: &str = "var c=a[0];a[0]=a[b%a.length];a[b%a.length]=c";

#[test]
fn sts_regex_matches() {
    let base_js = client_script();
    let sts = sts(&base_js);
    assert!(sts.is_some());
    assert_eq!(sts.unwrap(), "17885");
}

#[test]
fn base_js_regex_matches() {
    let embed_html = embed_page();
    let base_js_url = base_js_url(&embed_html);
    assert!(base_js_url.is_some());
    assert_eq!(
        base_js_url.unwrap(),
        "https://www.youtube.com/yts/jsbin/player-vflpOZkP0/en_US/base.js"
    );
}

#[test]
fn signature_function_name_regex_matches() {
    let base_js = client_script();
    let signature_function_name = signature_function_name(&base_js);
    assert!(signature_function_name.is_some());
    assert_eq!(signature_function_name.unwrap(), "qL");
}

#[test]
fn signature_function_body_regex_matches() {
    let base_js = client_script();
    let function_name = signature_function_name(&base_js);
    assert!(function_name.is_some());
    let body = signature_function_calls(&base_js, function_name.unwrap());
    assert!(body.is_some());
    assert_eq!(
        body.unwrap(),
        vec![
            JSFunctionCall {
                name: "pL.wx".to_string(),
                params: vec!["a".to_string(), "34".to_string()]
            },
            JSFunctionCall {
                name: "pL.dL".to_string(),
                params: vec!["a".to_string(), "58".to_string()]
            },
            JSFunctionCall {
                name: "pL.wx".to_string(),
                params: vec!["a".to_string(), "68".to_string()]
            },
            JSFunctionCall {
                name: "pL.Hy".to_string(),
                params: vec!["a".to_string(), "1".to_string()]
            },
            JSFunctionCall {
                name: "pL.wx".to_string(),
                params: vec!["a".to_string(), "38".to_string()]
            },
            JSFunctionCall {
                name: "pL.dL".to_string(),
                params: vec!["a".to_string(), "46".to_string()]
            }
        ]
    );
}

#[test]
fn signature_transform_function_name_matches() {
    let base_js = client_script();
    let function_name = signature_function_name(&base_js);
    assert!(function_name.is_some());
    let function_body = signature_function_calls(&base_js, function_name.unwrap());
    assert!(function_body.is_some());
    let function_body = function_body.unwrap();
    let name = signature_transform_function_name(&function_body);
    assert!(name.is_some());
    assert_eq!(name.unwrap(), "pL");
}

#[test]
fn signature_transform_function_parts_matches() {
    let base_js = client_script();
    let function_name = signature_function_name(&base_js);
    assert!(function_name.is_some());
    let function_body = signature_function_calls(&base_js, function_name.unwrap());
    assert!(function_body.is_some());
    let function_body = function_body.unwrap();
    let name = signature_transform_function_name(&function_body);
    assert!(name.is_some());
    let name = name.unwrap();
    let body = signature_transform_function_parts(&base_js, &name);
    assert!(body.is_some());
    assert_eq!(
        body.unwrap(),
        [
            JSFunction {
                name: Some("wx".to_string()),
                params: vec!["a".to_string(), "b".to_string()],
                body: "var c=a[0];a[0]=a[b%a.length];a[b%a.length]=c".to_string()
            },
            JSFunction {
                name: Some("dL".to_string()),
                params: vec!["a".to_string()],
                body: "a.reverse()".to_string()
            },
            JSFunction {
                name: Some("Hy".to_string()),
                params: vec!["a".to_string(), "b".to_string()],
                body: "a.splice(0,b)".to_string()
            }
        ]
    );
    let body = signature_transform_function_parts(&base_js, &name);
    let types: Vec<TransformType> = body.unwrap().iter().map(|x| x.into()).collect();
    assert_eq!(
        types,
        [
            TransformType::Swap,
            TransformType::Reverse,
            TransformType::Slice
        ]
    )
}

#[test]
fn apply_signature_transformation_matches() {
    let base_js = client_script();
    let function_name = signature_function_name(&base_js);
    assert!(function_name.is_some());
    let function_body = signature_function_calls(&base_js, function_name.unwrap());
    assert!(function_body.is_some());
    let function_body = function_body.unwrap();
    let name = signature_transform_function_name(&function_body);
    assert!(name.is_some());
    let name = name.unwrap();
    let body = signature_transform_function_parts(&base_js, &name);
    assert!(body.is_some());
    assert_eq!("68FED286CE1850B6D16F4743AE6D7A3750A361E1.DBE82917965E7925F313F50A4D342313C139D11", 
        apply_signature_transformation("A8FED286CE18E0B6D16F4743AE6D7A37506361E1.1BE82917965E7925F313F50A4D342313C139D1D5", body.unwrap(), function_body));
}

#[test]
fn decoding_replays_the_calls_on_given_functions() {
    let functions = vec![
        function("wx", &["a", "b"], SWAP_BODY),
        function("dL", &["a"], "a.reverse()"),
        function("Hy", &["a", "b"], "a.splice(0,b)"),
    ];
    let calls = vec![
        call("wx", &["a", "34"]),
        call("dL", &["a"]),
        call("wx", &["a", "68"]),
        call("Hy", &["a", "1"]),
        call("wx", &["a", "38"]),
        call("dL", &["a", "46"]),
    ];
    assert_eq!(
        apply_signature_transformation(
            "A8FED286CE18E0B6D16F4743AE6D7A37506361E1.1BE82917965E7925F313F50A4D342313C139D1D5",
            functions,
            calls
        ),
        "68FED286CE1850B6D16F4743AE6D7A3750A361E1.DBE82917965E7925F313F50A4D342313C139D11"
    );
}

#[test]
fn decoding_without_calls_gives_the_signature_back() {
    let functions = vec![function("dL", &["a"], "a.reverse()")];
    assert_eq!(apply_signature_transformation("ABC", functions, vec![]), "ABC");
    assert_eq!(apply_signature_transformation("", vec![], vec![]), "");
}

#[test]
fn decoding_twice_gives_the_same() {
    let functions = vec![
        function("wx", &["a", "b"], SWAP_BODY),
        function("dL", &["a"], "a.reverse()"),
    ];
    let calls = vec![call("x.wx", &["a", "2"]), call("x.dL", &["a"])];
    let once = apply_signature_transformation("ABCDEF", functions.clone(), calls.clone());
    let again = apply_signature_transformation("ABCDEF", functions, calls);
    assert_eq!(once, again);
    assert_eq!(once, "FEDABC");
}

#[test]
fn each_kind_does_its_step() {
    let functions = vec![
        function("sw", &["a", "b"], SWAP_BODY),
        function("rv", &["a"], "a.reverse()"),
        function("sl", &["a", "b"], "a.splice(0,b)"),
        function("no", &["a"], "return a"),
    ];
    let run = |name: &str, params: &[&str]| {
        apply_signature_transformation("ABCDE", functions.clone(), vec![call(name, params)])
    };
    assert_eq!(run("o.sw", &["a", "3"]), "DBCAE");
    assert_eq!(run("o.sw", &["a", "0"]), "ABCDE");
    assert_eq!(run("o.sw", &["a", "4"]), "EBCDA");
    assert_eq!(run("o.rv", &["a"]), "EDCBA");
    assert_eq!(run("o.sl", &["a", "2"]), "CDE");
    assert_eq!(run("o.sl", &["a", "0"]), "ABCDE");
    assert_eq!(run("o.sl", &["a", "5"]), "");
    assert_eq!(run("o.no", &["a", "2"]), "ABCDE");
}

#[test]
fn the_last_parameter_is_the_number() {
    let functions = vec![function("sl", &["a", "b"], "a.splice(0,b)")];
    assert_eq!(
        apply_signature_transformation("ABCDE", functions.clone(), vec![call("sl", &["1", "3"])]),
        "DE"
    );
    assert_eq!(
        apply_signature_transformation("ABCDE", functions, vec![call("sl", &["3"])]),
        "DE"
    );
}

#[test]
fn a_step_that_cannot_be_done_changes_nothing() {
    let functions = vec![
        function("sw", &["a", "b"], SWAP_BODY),
        function("sl", &["a", "b"], "a.splice(0,b)"),
    ];
    let run = |name: &str, params: &[&str]| {
        apply_signature_transformation("ABCDE", functions.clone(), vec![call(name, params)])
    };
    assert_eq!(run("sw", &["a", "5"]), "ABCDE");
    assert_eq!(run("sw", &["a", "b"]), "ABCDE");
    assert_eq!(run("sw", &["a", ""]), "ABCDE");
    assert_eq!(run("sw", &[]), "ABCDE");
    assert_eq!(run("sw", &["a", "99999999999999999999999999"]), "ABCDE");
    assert_eq!(run("sl", &["a", "6"]), "ABCDE");
    assert_eq!(run("sl", &["a", " 1"]), "ABCDE");
    assert_eq!(run("sl", &[]), "ABCDE");
    assert_eq!(
        apply_signature_transformation("", functions.clone(), vec![call("sw", &["a", "0"])]),
        ""
    );
}

#[test]
fn a_call_of_an_unknown_function_is_skipped() {
    let functions = vec![function("rv", &["a"], "a.reverse()")];
    let calls = vec![call("o.zz", &["a", "1"]), call("o.rv", &["a"]), call("o", &["a"])];
    assert_eq!(apply_signature_transformation("ABC", functions, calls), "CBA");
    let unnamed = vec![JSFunction { name: None, params: vec![], body: "a.reverse()".to_string() }];
    assert_eq!(apply_signature_transformation("ABC", unnamed, vec![call("", &["a"])]), "ABC");
}

#[test]
fn the_first_function_of_a_name_is_taken() {
    let functions = vec![
        function("f", &["a"], "a.reverse()"),
        function("f", &["a", "b"], "a.splice(0,b)"),
    ];
    assert_eq!(
        apply_signature_transformation("ABC", functions, vec![call("o.p.f", &["a", "1"])]),
        "CBA"
    );
}

#[test]
fn characters_are_counted_not_bytes() {
    let functions = vec![
        function("sw", &["a", "b"], SWAP_BODY),
        function("sl", &["a", "b"], "a.splice(0,b)"),
    ];
    assert_eq!(
        apply_signature_transformation("éabc", functions.clone(), vec![call("sw", &["a", "2"])]),
        "baéc"
    );
    assert_eq!(
        apply_signature_transformation("éabc", functions, vec![call("sl", &["a", "1"])]),
        "abc"
    );
}

#[test]
fn the_reversal_idiom_comes_first() {
    assert_eq!(TransformType::of_body("a.reverse()"), TransformType::Reverse);
    assert_eq!(TransformType::of_body("a.reverse();a.splice(0,b)"), TransformType::Reverse);
    assert_eq!(TransformType::of_body("a.splice(0,b);a.reverse()"), TransformType::Reverse);
    assert_eq!(
        TransformType::of_body("var c=a[0];a[0]=a[b%a.length];a.reverse()"),
        TransformType::Reverse
    );
    assert_eq!(TransformType::of_body("a.splice(0,b%a.length)"), TransformType::Slice);
    assert_eq!(TransformType::of_body(SWAP_BODY), TransformType::Swap);
    assert_eq!(TransformType::of_body("a[b%2]"), TransformType::Other);
    assert_eq!(TransformType::of_body("a.length"), TransformType::Other);
    assert_eq!(TransformType::of_body(""), TransformType::Other);
    let f = function("x", &["a"], "a.splice(0,1)");
    assert_eq!(TransformType::from(&f), TransformType::Slice);
}

#[test]
fn an_owner_is_searched_by_its_literal_name() {
    let script = "var $L={ab:function(a){a.reverse()}};var xL={cd:function(a,b){a.splice(0,b)}};";
    assert_eq!(
        signature_transform_function_parts(script, "$L"),
        Some(vec![function("ab", &["a"], "a.reverse()")])
    );
    assert_eq!(
        signature_transform_function_parts(script, "xL"),
        Some(vec![function("cd", &["a", "b"], "a.splice(0,b)")])
    );
    assert_eq!(signature_transform_function_parts(script, ".L"), None);
    assert_eq!(signature_transform_function_parts(script, "yL"), None);
}

#[test]
fn a_routine_is_searched_by_its_literal_name() {
    let script = "$L=function(a){a=a.split(\"\");p.r(a,1);return a.join(\"\")};";
    assert_eq!(
        signature_function_calls(script, "$L"),
        Some(vec![JSFunctionCall {
            name: "p.r".to_string(),
            params: vec!["a".to_string(), "1".to_string()]
        }])
    );
    assert_eq!(signature_function_calls(script, "L"), Some(vec![call("p.r", &["a", "1"])]));
    assert_eq!(signature_function_calls(script, ".L"), None);
    let dotted = "a.b=function(a){a=a.split(\"\");p.r(a,1);return a.join(\"\")};\n\
                  axb=function(a){a=a.split(\"\");q.s(a,2);return a.join(\"\")};";
    assert_eq!(signature_function_calls(dotted, "axb"), Some(vec![call("q.s", &["a", "2"])]));
    assert_eq!(signature_function_calls(dotted, "a.b"), Some(vec![call("p.r", &["a", "1"])]));
}

#[test]
fn quoting_agrees_with_the_regex_crate() {
    let samples = [
        "",
        "qL",
        "$L",
        "a.b",
        "\\.+*?()|[]{}^$#&-~",
        "%/!\"e é\n",
        "x$y$$",
    ];
    for sample in samples {
        assert_eq!(escape(sample), regex::escape(sample));
    }
    assert_eq!(escape("$L.x"), "\\$L\\.x");
    for code in 0u32..=0x2ff {
        let c = char::from_u32(code).unwrap();
        let text = c.to_string();
        assert_eq!(is_meta(c), regex::escape(&text) != text);
    }
}

#[test]
fn an_owner_without_functions_has_an_empty_list() {
    assert_eq!(signature_transform_function_parts("var pL={a:1};", "pL"), Some(vec![]));
}

#[test]
fn a_routine_without_calls_is_none() {
    let script = "qL=function(a){a=a.split(\"\");x=1 return a.join(\"\")};";
    assert_eq!(signature_function_calls(script, "qL"), None);
    assert_eq!(signature_function_calls(script, "zz"), None);
    assert_eq!(signature_function_calls("", "qL"), None);
}

#[test]
fn the_owner_stands_before_the_first_dot() {
    assert_eq!(
        signature_transform_function_name(&vec![call("pL.wx", &["a"]), call("qq.dL", &["a"])]),
        Some("pL".to_string())
    );
    assert_eq!(
        signature_transform_function_name(&vec![call("a.b.c", &["a"])]),
        Some("a".to_string())
    );
    assert_eq!(signature_transform_function_name(&vec![call("wx", &["a"])]), None);
    assert_eq!(signature_transform_function_name(&vec![]), None);
}

#[test]
fn the_name_patterns_are_tried_in_order() {
    assert_eq!(signature_function_name("a.sig||zz(b)"), Some("zz"));
    assert_eq!(signature_function_name("c&&d.set(\"signature\",ab(c)); x.sig||zz(b)"), Some("ab"));
    assert_eq!(signature_function_name("nothing here"), None);
}

#[test]
fn a_script_without_token_has_none() {
    assert_eq!(sts("var a=1;"), None);
    assert_eq!(sts("sts:abc"), None);
    assert_eq!(sts("x,sts:1,sts:2"), Some("1"));
    assert_eq!(base_js_url("<html>"), None);
}
