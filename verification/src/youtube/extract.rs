//! Reading values and function definitions out of the provider's page and
//! client script. Every search is a regular expression; the contracts say
//! which pattern is searched in which text, and what is made of the groups.
use crate::regex_calls::{
    captures, captures_iter, captures_view, escape, escaped, groups_view, is_match, matches_view,
    regex_all_captures, regex_captures, regex_matches,
};
use crate::text::{opt_str_view, opt_string_view, split, split_on};
use crate::youtube::cipher::{
    calls_view, functions_view, CallText, FunctionText, JSFunction, JSFunctionCall,
};
use vstd::prelude::*;
use vstd::string::StringExecFns;

verus! {

/// The client token in the client script.
pub const STS_PATTERN: &'static str = r"sts:(\d+)";

/// The path of the client script in the embed page.
pub const BASE_JS_PATTERN: &'static str = r"(/yts/jsbin/(?:\w|[-/.])+base\.js)";

/// The origin that the client script's path is relative to.
pub const SCRIPT_ORIGIN: &'static str = "https://www.youtube.com";

/// The places where the script calls its decoding routine, most specific
/// first.
pub const NAME_PATTERN_0: &'static str =
    r#"yt\.akamaized\.net/\)\s*\|\|\s*.*?\s*c\s*&&\s*d\.set\([^,]+\s*,\s*(?:encodeURIComponent\s*\()?(?P<sig>[a-zA-Z0-9$]+)\("#;

pub const NAME_PATTERN_1: &'static str =
    r#"\bc\s*&&\s*d\.set\([^,]+\s*,\s*(?:encodeURIComponent\s*\()?\s*(?P<sig>[a-zA-Z0-9$]+)\("#;

pub const NAME_PATTERN_2: &'static str = r#"\.sig\|\|(?P<sig>[a-zA-Z0-9$]+)\("#;

pub const NAME_PATTERN_3: &'static str =
    r#"yt\.akamaized\.net/\)\s*\|\|\s*.*?\s*c\s*&&\s*d\.set\([^,]+\s*,\s*(?P<sig>[a-zA-Z0-9$]+)\("#;

pub const NAME_PATTERN_4: &'static str = r#"\bc\s*&&\s*d\.set\([^,]+\s*,\s*(?P<sig>[a-zA-Z0-9$]+)\("#;

pub const NAME_PATTERN_5: &'static str =
    r#"\bc\s*&&\s*d\.set\([^,]+\s*,\s*\([^)]*\)\s*\(\s*(?P<sig>[a-zA-Z0-9$]+)\("#;

/// What follows the routine's name in its definition: it splits its argument
/// into characters, makes its calls (group 1) and joins the characters again.
pub const ROUTINE_PATTERN_TAIL: &'static str = r#"=function\(a\)\{a=a.split\(""\);(.+)return a\.join\(""\)\};"#;

/// One call in the routine's body: the name (group 1) and the arguments
/// (group 2).
pub const CALL_PATTERN: &'static str = r#"([.A-Za-z0-9$_]+)\((.*?)\);"#;

/// The owner of a call: what stands before the first dot that has something
/// before it.
pub const OWNER_PATTERN: &'static str = r#"(.+?)\."#;

/// What stands before and after the owner's name in its definition; group 1
/// is what the braces hold.
pub const OBJECT_PATTERN_HEAD: &'static str = "var ";

pub const OBJECT_PATTERN_TAIL: &'static str = r#"=\{((?:.|\s)+?)\};"#;

/// One function of the owner: the name (group 1), the parameters (group 2)
/// and the body (group 3).
pub const FUNCTION_PATTERN: &'static str =
    r#"(?:([.A-Za-z0-9]+)\s*?:function\((.+?)\)\{(.*?)\}(?:,|\s)*?)"#;

/// Group `i` of a match, where the match has such a group and it took part.
pub open spec fn group(groups: Seq<Option<Seq<char>>>, i: int) -> Option<Seq<char>> {
    if 0 <= i < groups.len() {
        groups[i]
    } else {
        None
    }
}

/// Group 1 of the leftmost match of `pattern` in `text`.
pub open spec fn first_group(pattern: Seq<char>, multi_line: bool, text: Seq<char>) -> Option<Seq<char>> {
    match regex_captures(pattern, multi_line, text) {
        Some(groups) => group(groups, 1),
        None => None,
    }
}

/// The patterns for the routine's name, in the order in which they are tried.
pub open spec fn name_patterns() -> Seq<Seq<char>> {
    seq![
        NAME_PATTERN_0@,
        NAME_PATTERN_1@,
        NAME_PATTERN_2@,
        NAME_PATTERN_3@,
        NAME_PATTERN_4@,
        NAME_PATTERN_5@,
    ]
}

/// Group 1 of the first of `patterns` that matches in `text` at all.
pub open spec fn group_of_first_matching(patterns: Seq<Seq<char>>, text: Seq<char>) -> Option<Seq<char>>
    decreases patterns.len(),
{
    if patterns.len() == 0 {
        None
    } else if regex_matches(patterns.first(), text) {
        first_group(patterns.first(), false, text)
    } else {
        group_of_first_matching(patterns.drop_first(), text)
    }
}

/// The pattern that finds the definition of the routine called `name`, the
/// name taken literally.
pub open spec fn routine_pattern(name: Seq<char>) -> Seq<char> {
    escaped(name) + ROUTINE_PATTERN_TAIL@
}

/// The pattern that finds the definition of the object called `name`, the
/// name taken literally.
pub open spec fn object_pattern(name: Seq<char>) -> Seq<char> {
    OBJECT_PATTERN_HEAD@ + escaped(name) + OBJECT_PATTERN_TAIL@
}

/// The call that one match of the call pattern stands for: none where the
/// name or the arguments took no part.
pub open spec fn call_of(groups: Seq<Option<Seq<char>>>) -> Option<CallText> {
    match (group(groups, 1), group(groups, 2)) {
        (Some(name), Some(params)) => Some(CallText { name, params: split_on(params, ',') }),
        _ => None,
    }
}

/// The calls that a list of matches stands for, in the order of the matches.
pub open spec fn calls_of(all: Seq<Seq<Option<Seq<char>>>>) -> Seq<CallText>
    decreases all.len(),
{
    if all.len() == 0 {
        Seq::empty()
    } else {
        match call_of(all.last()) {
            Some(call) => calls_of(all.drop_last()).push(call),
            None => calls_of(all.drop_last()),
        }
    }
}

/// The function that one match of the function pattern stands for: none
/// where the name, the parameters or the body took no part.
pub open spec fn function_of(groups: Seq<Option<Seq<char>>>) -> Option<FunctionText> {
    match (group(groups, 1), group(groups, 2), group(groups, 3)) {
        (Some(name), Some(params), Some(body)) => Some(
            FunctionText { name: Some(name), params: split_on(params, ','), body },
        ),
        _ => None,
    }
}

/// The functions that a list of matches stands for, in the order of the
/// matches.
pub open spec fn functions_of(all: Seq<Seq<Option<Seq<char>>>>) -> Seq<FunctionText>
    decreases all.len(),
{
    if all.len() == 0 {
        Seq::empty()
    } else {
        match function_of(all.last()) {
            Some(function) => functions_of(all.drop_last()).push(function),
            None => functions_of(all.drop_last()),
        }
    }
}

/// A list of calls, or none where the list is empty: a routine without calls
/// decodes nothing.
pub open spec fn some_calls(calls: Seq<CallText>) -> Option<Seq<CallText>> {
    if calls.len() == 0 {
        None
    } else {
        Some(calls)
    }
}

/// The calls of the routine `name` in `script`.
pub open spec fn routine_calls(script: Seq<char>, name: Seq<char>) -> Option<Seq<CallText>> {
    match first_group(routine_pattern(name), false, script) {
        Some(body) => some_calls(calls_of(regex_all_captures(CALL_PATTERN@, false, body))),
        None => None,
    }
}

/// The functions of the object `name` in `script`.
pub open spec fn object_functions(script: Seq<char>, name: Seq<char>) -> Option<Seq<FunctionText>> {
    match first_group(object_pattern(name), true, script) {
        Some(inner) => Some(functions_of(regex_all_captures(FUNCTION_PATTERN@, true, inner))),
        None => None,
    }
}

/// The text of an optional list of calls.
pub open spec fn opt_calls_view(calls: Option<Vec<JSFunctionCall>>) -> Option<Seq<CallText>> {
    match calls {
        Some(calls) => Some(calls_view(calls@)),
        None => None,
    }
}

/// The text of an optional list of functions.
pub open spec fn opt_functions_view(functions: Option<Vec<JSFunction>>) -> Option<Seq<FunctionText>> {
    match functions {
        Some(functions) => Some(functions_view(functions@)),
        None => None,
    }
}

/// Group `i` of a match.
pub fn group_text<'h>(groups: &Vec<Option<&'h str>>, i: usize) -> (text: Option<&'h str>)
    ensures
        opt_str_view(text) == group(groups_view(groups@), i as int),
{
    if i < groups.len() {
        groups[i]
    } else {
        None
    }
}

/// Group 1 of an optional match.
pub fn first_group_text<'h>(found: &Option<Vec<Option<&'h str>>>) -> (text: Option<&'h str>)
    ensures
        opt_str_view(text) == match captures_view(*found) {
            Some(groups) => group(groups, 1),
            None => None,
        },
{
    match found {
        Some(groups) => group_text(groups, 1),
        None => None,
    }
}

/// The client token of the client script: group 1 of `STS_PATTERN`.
pub fn sts<'a>(base_js: &'a str) -> (token: Option<&'a str>)
    ensures
        opt_str_view(token) == first_group(STS_PATTERN@, false, base_js@),
{
    let found = captures(STS_PATTERN, false, base_js);
    first_group_text(&found)
}

/// The address that a script path found in the embed page stands for.
pub fn script_url(path: Option<&str>) -> (url: Option<String>)
    ensures
        opt_string_view(url) == match path {
            Some(path) => Some(SCRIPT_ORIGIN@ + path@),
            None => None,
        },
{
    match path {
        Some(path) => Some(String::from_str(SCRIPT_ORIGIN).concat(path)),
        None => None,
    }
}

/// The address of the client script that the embed page names: group 1 of
/// `BASE_JS_PATTERN`, made absolute.
pub fn base_js_url(embed_html: &str) -> (url: Option<String>)
    ensures
        opt_string_view(url) == match first_group(BASE_JS_PATTERN@, false, embed_html@) {
            Some(path) => Some(SCRIPT_ORIGIN@ + path),
            None => None,
        },
{
    let found = captures(BASE_JS_PATTERN, false, embed_html);
    script_url(first_group_text(&found))
}

/// The patterns for the routine's name.
fn signature_function_name_patterns() -> (patterns: Vec<&'static str>)
    ensures
        patterns@.len() == name_patterns().len(),
        forall|i: int| 0 <= i < patterns@.len() ==> (#[trigger] patterns@[i])@ == name_patterns()[i],
{
    let mut patterns: Vec<&'static str> = Vec::new();
    patterns.push(NAME_PATTERN_0);
    patterns.push(NAME_PATTERN_1);
    patterns.push(NAME_PATTERN_2);
    patterns.push(NAME_PATTERN_3);
    patterns.push(NAME_PATTERN_4);
    patterns.push(NAME_PATTERN_5);
    patterns
}

/// The name of the decoding routine: group 1 of the first of the name
/// patterns that matches in the script.
pub fn signature_function_name<'a>(base_js: &'a str) -> (name: Option<&'a str>)
    ensures
        opt_str_view(name) == group_of_first_matching(name_patterns(), base_js@),
{
    let patterns = signature_function_name_patterns();
    let ghost all = name_patterns();
    let mut i: usize = 0;
    proof {
        assert(all.skip(0) =~= all);
    }
    while i < patterns.len()
        invariant
            i <= patterns.len(),
            all == name_patterns(),
            patterns@.len() == all.len(),
            forall|k: int| 0 <= k < patterns@.len() ==> (#[trigger] patterns@[k])@ == all[k],
            group_of_first_matching(all, base_js@) == group_of_first_matching(all.skip(i as int), base_js@),
        decreases patterns.len() - i,
    {
        proof {
            assert(all.skip(i as int).first() == patterns@[i as int]@);
            assert(all.skip(i as int).drop_first() =~= all.skip(i + 1));
        }
        if is_match(patterns[i], base_js) {
            let found = captures(patterns[i], false, base_js);
            return first_group_text(&found);
        }
        i += 1;
    }
    None
}

/// The calls that the matches of the call pattern stand for; none where
/// there is no call among them.
pub fn calls_from_matches(all: &Vec<Vec<Option<&str>>>) -> (calls: Option<Vec<JSFunctionCall>>)
    ensures
        opt_calls_view(calls) == some_calls(calls_of(matches_view(all@))),
{
    let mut calls: Vec<JSFunctionCall> = Vec::new();
    let ghost every = matches_view(all@);
    let mut i: usize = 0;
    proof {
        assert(every.take(0) =~= Seq::empty());
        assert(calls_view(calls@) =~= Seq::empty());
    }
    while i < all.len()
        invariant
            i <= all.len(),
            every == matches_view(all@),
            calls_view(calls@) == calls_of(every.take(i as int)),
        decreases all.len() - i,
    {
        let groups = &all[i];
        proof {
            assert(every.take(i + 1).drop_last() =~= every.take(i as int));
            assert(every.take(i + 1).last() == groups_view(groups@));
        }
        match (group_text(groups, 1), group_text(groups, 2)) {
            (Some(name), Some(params)) => {
                let ghost before = calls_view(calls@);
                let call = JSFunctionCall { name: String::from_str(name), params: split(params, ',') };
                calls.push(call);
                proof {
                    assert(calls_view(calls@) =~= before.push(call@));
                }
            },
            _ => {},
        }
        i += 1;
    }
    proof {
        assert(every.take(all.len() as int) =~= every);
    }
    if calls.len() == 0 {
        None
    } else {
        Some(calls)
    }
}

/// The functions that the matches of the function pattern stand for.
pub fn functions_from_matches(all: &Vec<Vec<Option<&str>>>) -> (functions: Vec<JSFunction>)
    ensures
        functions_view(functions@) == functions_of(matches_view(all@)),
{
    let mut functions: Vec<JSFunction> = Vec::new();
    let ghost every = matches_view(all@);
    let mut i: usize = 0;
    proof {
        assert(every.take(0) =~= Seq::empty());
        assert(functions_view(functions@) =~= Seq::empty());
    }
    while i < all.len()
        invariant
            i <= all.len(),
            every == matches_view(all@),
            functions_view(functions@) == functions_of(every.take(i as int)),
        decreases all.len() - i,
    {
        let groups = &all[i];
        proof {
            assert(every.take(i + 1).drop_last() =~= every.take(i as int));
            assert(every.take(i + 1).last() == groups_view(groups@));
        }
        match (group_text(groups, 1), group_text(groups, 2), group_text(groups, 3)) {
            (Some(name), Some(params), Some(body)) => {
                let ghost before = functions_view(functions@);
                let function = JSFunction {
                    name: Some(String::from_str(name)),
                    params: split(params, ','),
                    body: String::from_str(body),
                };
                functions.push(function);
                proof {
                    assert(functions_view(functions@) =~= before.push(function@));
                }
            },
            _ => {},
        }
        i += 1;
    }
    proof {
        assert(every.take(all.len() as int) =~= every);
    }
    functions
}

/// The calls of the decoding routine `function_name`, in the order in which
/// the routine makes them: the routine's definition is found by
/// `routine_pattern`, and every match of `CALL_PATTERN` in its body is a call.
pub fn signature_function_calls(base_js: &str, function_name: &str) -> (calls: Option<Vec<JSFunctionCall>>)
    ensures
        opt_calls_view(calls) == routine_calls(base_js@, function_name@),
{
    let pattern = escape(function_name).concat(ROUTINE_PATTERN_TAIL);
    let found = captures(pattern.as_str(), false, base_js);
    match first_group_text(&found) {
        Some(body) => {
            let all = captures_iter(CALL_PATTERN, false, body);
            calls_from_matches(&all)
        },
        None => None,
    }
}

/// The owner found in a call's name: group 1 of `OWNER_PATTERN`.
pub open spec fn owner_of(name: Seq<char>) -> Option<Seq<char>> {
    first_group(OWNER_PATTERN@, false, name)
}

/// The name of the object that holds the transformation functions: the owner
/// in the name of the routine's first call.
pub fn signature_transform_function_name(signature_function_body: &Vec<JSFunctionCall>) -> (name: Option<
    String,
>)
    ensures
        opt_string_view(name) == (if signature_function_body@.len() == 0 {
            None
        } else {
            owner_of(signature_function_body@[0]@.name)
        }),
{
    if signature_function_body.len() == 0 {
        return None;
    }
    let found = captures(OWNER_PATTERN, false, signature_function_body[0].name.as_str());
    match first_group_text(&found) {
        Some(owner) => Some(String::from_str(owner)),
        None => None,
    }
}

/// The functions of the object `function_name`, in the order in which the
/// script defines them: the object's definition is found by `object_pattern`,
/// and every match of `FUNCTION_PATTERN` in it is a function.
pub fn signature_transform_function_parts(base_js: &str, function_name: &str) -> (functions: Option<
    Vec<JSFunction>,
>)
    ensures
        opt_functions_view(functions) == object_functions(base_js@, function_name@),
{
    let quoted = escape(function_name);
    let pattern = String::from_str(OBJECT_PATTERN_HEAD).concat(quoted.as_str()).concat(
        OBJECT_PATTERN_TAIL,
    );
    let found = captures(pattern.as_str(), true, base_js);
    match first_group_text(&found) {
        Some(inner) => {
            let all = captures_iter(FUNCTION_PATTERN, true, inner);
            Some(functions_from_matches(&all))
        },
        None => None,
    }
}

} // verus!
