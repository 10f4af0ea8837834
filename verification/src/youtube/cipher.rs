//! The signature cipher: a list of classified transformations, replayed in
//! call order on a signature.
use crate::text::{
    contains, contains_char, contains_text, decimal_value, index_value, last_piece, parse_index,
    split_on, string_of, chars_of, strings_view, opt_string_view,
};
use vstd::prelude::*;

verus! {

/// One function of the provider's transformation object, as found in the
/// script. The body is matched against, never run.
#[derive(Debug, PartialEq, Eq, Clone)]
pub struct JSFunction {
    pub name: Option<String>,
    pub params: Vec<String>,
    pub body: String,
}

/// One call in the decoding routine.
#[derive(Debug, PartialEq, Eq, Clone)]
pub struct JSFunctionCall {
    pub name: String,
    pub params: Vec<String>,
}

/// What a transformation function does to the signature.
#[derive(Debug, PartialEq, Eq, Clone, Copy)]
pub enum TransformType {
    Swap,
    Slice,
    Reverse,
    Other,
}

/// A function as plain text.
pub struct FunctionText {
    pub name: Option<Seq<char>>,
    pub params: Seq<Seq<char>>,
    pub body: Seq<char>,
}

/// A call as plain text.
pub struct CallText {
    pub name: Seq<char>,
    pub params: Seq<Seq<char>>,
}

impl View for JSFunction {
    type V = FunctionText;

    open spec fn view(&self) -> FunctionText {
        FunctionText {
            name: opt_string_view(self.name),
            params: strings_view(self.params@),
            body: self.body@,
        }
    }
}

impl View for JSFunctionCall {
    type V = CallText;

    open spec fn view(&self) -> CallText {
        CallText { name: self.name@, params: strings_view(self.params@) }
    }
}

/// The text of each function of a list.
pub open spec fn functions_view(functions: Seq<JSFunction>) -> Seq<FunctionText> {
    Seq::new(functions.len(), |i: int| functions[i]@)
}

/// The text of each call of a list.
pub open spec fn calls_view(calls: Seq<JSFunctionCall>) -> Seq<CallText> {
    Seq::new(calls.len(), |i: int| calls[i]@)
}

/// The kind of a function, read off its body: the first of the three idioms
/// that the body shows, in this order, decides.
pub open spec fn transform_kind(body: Seq<char>) -> TransformType {
    if contains_text(body, "reverse"@) {
        TransformType::Reverse
    } else if contains_text(body, "splice"@) {
        TransformType::Slice
    } else if body.contains('%') && contains_text(body, ".length"@) {
        TransformType::Swap
    } else {
        TransformType::Other
    }
}

/// A call's name without the object path in front of it.
pub open spec fn unqualified(name: Seq<char>) -> Seq<char> {
    split_on(name, '.').last()
}

/// The kind of the first function called `name`, if there is one.
pub open spec fn called_kind(functions: Seq<FunctionText>, name: Seq<char>) -> Option<TransformType>
    decreases functions.len(),
{
    if functions.len() == 0 {
        None
    } else if functions.first().name == Some(name) {
        Some(transform_kind(functions.first().body))
    } else {
        called_kind(functions.drop_first(), name)
    }
}

/// The number that a call hands to its function: its last parameter, read
/// in decimal.
pub open spec fn last_number(params: Seq<Seq<char>>) -> Option<nat> {
    if params.len() == 0 {
        None
    } else {
        decimal_value(params.last())
    }
}

/// One transformation of a signature. `Slice` drops the first `n` characters
/// and `Swap` exchanges the characters at 0 and `n`. A step whose number is
/// missing, is no number, or points outside the signature changes nothing.
pub open spec fn transform(kind: TransformType, signature: Seq<char>, number: Option<nat>) -> Seq<char> {
    match kind {
        TransformType::Reverse => signature.reverse(),
        TransformType::Slice => match number {
            Some(n) => if n <= signature.len() {
                signature.skip(n as int)
            } else {
                signature
            },
            None => signature,
        },
        TransformType::Swap => match number {
            Some(n) => if n < signature.len() {
                signature.update(0, signature[n as int]).update(n as int, signature[0])
            } else {
                signature
            },
            None => signature,
        },
        TransformType::Other => signature,
    }
}

/// What one call does to a signature. A call that names no known function
/// changes nothing.
pub open spec fn apply_call(signature: Seq<char>, functions: Seq<FunctionText>, call: CallText) -> Seq<char> {
    match called_kind(functions, unqualified(call.name)) {
        Some(kind) => transform(kind, signature, last_number(call.params)),
        None => signature,
    }
}

/// What the calls do to a signature, one after the other.
pub open spec fn apply_calls(signature: Seq<char>, functions: Seq<FunctionText>, calls: Seq<CallText>) -> Seq<char>
    decreases calls.len(),
{
    if calls.len() == 0 {
        signature
    } else {
        apply_call(apply_calls(signature, functions, calls.drop_last()), functions, calls.last())
    }
}

/// A body that shows the reversal idiom is a `Reverse`, whatever else it shows.
pub proof fn lemma_reverse_takes_precedence(body: Seq<char>)
    requires
        contains_text(body, "reverse"@),
    ensures
        transform_kind(body) == TransformType::Reverse,
{
}

/// Decoding with no calls gives the signature back.
pub proof fn lemma_no_calls_is_identity(signature: Seq<char>, functions: Seq<FunctionText>)
    ensures
        apply_calls(signature, functions, Seq::<CallText>::empty()) == signature,
{
}

/// Decoding twice from the same signature, functions and calls gives the same
/// result: whatever `apply_signature_transformation` returns is fixed by the
/// text of its three arguments.
pub proof fn lemma_decoding_is_deterministic(
    signature: &str,
    functions: Vec<JSFunction>,
    calls: Vec<JSFunctionCall>,
    again_signature: &str,
    again_functions: Vec<JSFunction>,
    again_calls: Vec<JSFunctionCall>,
    decoded: String,
    again_decoded: String,
)
    requires
        signature@ == again_signature@,
        functions_view(functions@) == functions_view(again_functions@),
        calls_view(calls@) == calls_view(again_calls@),
        decoded_by(signature, functions, calls, decoded),
        decoded_by(again_signature, again_functions, again_calls, again_decoded),
    ensures
        decoded@ == again_decoded@,
{
}

/// What `apply_signature_transformation` promises of its result.
pub open spec fn decoded_by(
    signature: &str,
    functions: Vec<JSFunction>,
    calls: Vec<JSFunctionCall>,
    decoded: String,
) -> bool {
    decoded@ == apply_calls(signature@, functions_view(functions@), calls_view(calls@))
}

impl TransformType {
    /// Classifies a function body.
    pub fn of_body(body: &str) -> (kind: TransformType)
        ensures
            kind == transform_kind(body@),
            contains_text(body@, "reverse"@) ==> kind == TransformType::Reverse,
    {
        if contains(body, "reverse") {
            TransformType::Reverse
        } else if contains(body, "splice") {
            TransformType::Slice
        } else if contains_char(body, '%') && contains(body, ".length") {
            TransformType::Swap
        } else {
            TransformType::Other
        }
    }
}

impl From<&JSFunction> for TransformType {
    fn from(other: &JSFunction) -> (kind: TransformType) {
        TransformType::of_body(other.body.as_str())
    }
}

impl vstd::std_specs::convert::FromSpecImpl<&JSFunction> for TransformType {
    open spec fn obeys_from_spec() -> bool {
        true
    }

    open spec fn from_spec(other: &JSFunction) -> TransformType {
        transform_kind(other.body@)
    }
}

/// The kind of the first function called `name`.
pub fn find_kind(functions: &Vec<JSFunction>, name: &String) -> (kind: Option<TransformType>)
    ensures
        kind == called_kind(functions_view(functions@), name@),
{
    let ghost all = functions_view(functions@);
    let mut i: usize = 0;
    proof {
        assert(all.skip(0) =~= all);
    }
    while i < functions.len()
        invariant
            i <= functions.len(),
            all == functions_view(functions@),
            called_kind(all, name@) == called_kind(all.skip(i as int), name@),
        decreases functions.len() - i,
    {
        let function = &functions[i];
        proof {
            assert(all.skip(i as int).first() == function@);
            assert(all.skip(i as int).drop_first() =~= all.skip(i + 1));
        }
        let named = match &function.name {
            Some(own) => *own == *name,
            None => false,
        };
        if named {
            return Some(TransformType::from(function));
        }
        i += 1;
    }
    None
}

/// Carries out one transformation on the characters of a signature.
pub fn transform_chars(kind: TransformType, signature: Vec<char>, number: Option<usize>) -> (changed: Vec<char>)
    ensures
        changed@ == transform(
            kind,
            signature@,
            match number {
                Some(n) => Some(n as nat),
                None => None,
            },
        ),
{
    match kind {
        TransformType::Reverse => {
            let mut reversed: Vec<char> = Vec::new();
            let mut left: usize = signature.len();
            while left > 0
                invariant
                    left <= signature.len(),
                    reversed.len() == signature.len() - left,
                    forall|k: int| 0 <= k < reversed.len() ==> reversed@[k] == signature@[signature.len() - 1 - k],
                decreases left,
            {
                left -= 1;
                reversed.push(signature[left]);
            }
            assert(reversed@ =~= signature@.reverse());
            reversed
        },
        TransformType::Slice => match number {
            Some(n) => if n <= signature.len() {
                let mut rest: Vec<char> = Vec::new();
                let mut i: usize = n;
                while i < signature.len()
                    invariant
                        n <= i <= signature.len(),
                        rest@ == signature@.subrange(n as int, i as int),
                    decreases signature.len() - i,
                {
                    rest.push(signature[i]);
                    i += 1;
                    assert(signature@.subrange(n as int, i as int) =~= signature@.subrange(
                        n as int,
                        i - 1,
                    ).push(signature@[i - 1]));
                }
                assert(signature@.subrange(n as int, signature.len() as int) =~= signature@.skip(n as int));
                rest
            } else {
                signature
            },
            None => signature,
        },
        TransformType::Swap => match number {
            Some(n) => if n < signature.len() {
                let mut swapped = signature;
                let first = swapped[0];
                let other = swapped[n];
                swapped.set(0, other);
                swapped.set(n, first);
                swapped
            } else {
                signature
            },
            None => signature,
        },
        TransformType::Other => signature,
    }
}

/// Replays `calls`, in order, on `signature`. Each call is matched by its
/// unqualified name to the first function of that name and carried out by
/// that function's kind; a call that matches none is skipped.
pub fn apply_signature_transformation(
    signature: &str,
    functions: Vec<JSFunction>,
    calls: Vec<JSFunctionCall>,
) -> (decoded: String)
    ensures
        decoded@ == apply_calls(signature@, functions_view(functions@), calls_view(calls@)),
        calls@.len() == 0 ==> decoded@ == signature@,
{
    let mut working = chars_of(signature);
    let ghost all_calls = calls_view(calls@);
    let ghost all_functions = functions_view(functions@);
    let mut i: usize = 0;
    proof {
        assert(all_calls.take(0) =~= Seq::<CallText>::empty());
    }
    while i < calls.len()
        invariant
            i <= calls.len(),
            all_calls == calls_view(calls@),
            all_functions == functions_view(functions@),
            working@ == apply_calls(signature@, all_functions, all_calls.take(i as int)),
        decreases calls.len() - i,
    {
        let call = &calls[i];
        proof {
            assert(all_calls.take(i + 1).drop_last() =~= all_calls.take(i as int));
            assert(all_calls.take(i + 1).last() == call@);
        }
        let name = last_piece(call.name.as_str(), '.');
        match find_kind(&functions, &name) {
            Some(kind) => {
                let number = if call.params.len() == 0 {
                    None
                } else {
                    parse_index(call.params[call.params.len() - 1].as_str())
                };
                proof {
                    assert(working@.len() == working.len());
                    lemma_number_in_reach(kind, working@, call@.params, number);
                }
                working = transform_chars(kind, working, number);
            },
            None => {},
        }
        i += 1;
    }
    proof {
        assert(all_calls.take(calls.len() as int) =~= all_calls);
    }
    string_of(&working)
}

/// A number too large for the machine word points outside every signature
/// the machine can hold, so reading the parameter as a machine word loses
/// nothing.
proof fn lemma_number_in_reach(kind: TransformType, signature: Seq<char>, params: Seq<Seq<char>>, number: Option<usize>)
    requires
        signature.len() <= usize::MAX,
        number == (if params.len() == 0 {
            None
        } else {
            index_value(params.last())
        }),
    ensures
        transform(
            kind,
            signature,
            match number {
                Some(n) => Some(n as nat),
                None => None,
            },
        ) == transform(kind, signature, last_number(params)),
{
}

} // verus!
