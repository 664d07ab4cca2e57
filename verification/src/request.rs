//! Requests as mathematical values, and what a wrapper answers to each.
//!
//! A request is what a caller asks, with its inputs as the bytes of the
//! strings given. Its outcome is the call that the driver is to make, or
//! the reason why there is none.

use crate::call::{CallView, NativeCall};
use crate::cstring::{
    c_string, has_nul, is_first_nul, lemma_marshalled, marshalled, EncodingError,
};
use vstd::prelude::*;

verus! {

/// Why a request gave no call.
#[derive(Debug, Clone, Copy, PartialEq, Eq)]
pub enum CallError {
    /// An input holds a zero byte.
    Encoding(EncodingError),
    /// The handle has been given up.
    Released,
}

/// What creates a wrapper, with its inputs as bytes.
pub enum Creation {
    Plain { affpath: Seq<u8>, dicpath: Seq<u8> },
    Keyed { affpath: Seq<u8>, dicpath: Seq<u8>, key: Seq<u8> },
}

/// What can be asked of a wrapper, with its inputs as bytes.
pub enum Request {
    AddDictionary { dicpath: Seq<u8> },
    Add { word: Seq<u8> },
    Check { word: Seq<u8> },
    Suggest { word: Seq<u8> },
    Analyze { word: Seq<u8> },
    Stem { word: Seq<u8> },
    Generate { word1: Seq<u8>, word2: Seq<u8> },
}

impl Creation {
    /// The inputs, in the order in which they are marshalled.
    pub open spec fn inputs(self) -> Seq<Seq<u8>> {
        match self {
            Creation::Plain { affpath, dicpath } => seq![affpath, dicpath],
            Creation::Keyed { affpath, dicpath, key } => seq![affpath, dicpath, key],
        }
    }

    /// The call that loads the dictionary, each input closed by a zero.
    pub open spec fn call(self) -> CallView {
        match self {
            Creation::Plain { affpath, dicpath } => CallView::Create {
                affpath: c_string(affpath),
                dicpath: c_string(dicpath),
            },
            Creation::Keyed { affpath, dicpath, key } => CallView::CreateKey {
                affpath: c_string(affpath),
                dicpath: c_string(dicpath),
                key: c_string(key),
            },
        }
    }

    /// What creating gives: the call, unless an input is refused.
    pub open spec fn outcome(self) -> Result<CallView, EncodingError> {
        match rejection(self.inputs()) {
            Some(e) => Err(e),
            None => Ok(self.call()),
        }
    }
}

impl Request {
    /// The inputs, in the order in which they are marshalled.
    pub open spec fn inputs(self) -> Seq<Seq<u8>> {
        match self {
            Request::AddDictionary { dicpath } => seq![dicpath],
            Request::Add { word } => seq![word],
            Request::Check { word } => seq![word],
            Request::Suggest { word } => seq![word],
            Request::Analyze { word } => seq![word],
            Request::Stem { word } => seq![word],
            Request::Generate { word1, word2 } => seq![word1, word2],
        }
    }

    /// The call that carries the request out, each input closed by a zero.
    pub open spec fn call(self) -> CallView {
        match self {
            Request::AddDictionary { dicpath } => CallView::AddDic { dicpath: c_string(dicpath) },
            Request::Add { word } => CallView::Add { word: c_string(word) },
            Request::Check { word } => CallView::Spell { word: c_string(word) },
            Request::Suggest { word } => CallView::Suggest { word: c_string(word) },
            Request::Analyze { word } => CallView::Analyze { word: c_string(word) },
            Request::Stem { word } => CallView::Stem { word: c_string(word) },
            Request::Generate { word1, word2 } => CallView::Generate {
                word1: c_string(word1),
                word2: c_string(word2),
            },
        }
    }

    /// What a wrapper answers: an input with a zero byte is refused first,
    /// whatever the wrapper's state; then a wrapper that has given up its
    /// handle refuses; otherwise the answer is the call.
    pub open spec fn outcome(self, live: bool) -> Result<CallView, CallError> {
        match rejection(self.inputs()) {
            Some(e) => Err(CallError::Encoding(e)),
            None => if live {
                Ok(self.call())
            } else {
                Err(CallError::Released)
            },
        }
    }
}

/// The error for the first input that holds a zero byte, if there is one.
pub open spec fn rejection(inputs: Seq<Seq<u8>>) -> Option<EncodingError>
    decreases inputs.len(),
{
    if inputs.len() == 0 {
        None
    } else {
        match marshalled(inputs[0]) {
            Err(e) => Some(e),
            Ok(_) => rejection(inputs.drop_first()),
        }
    }
}

/// What a request gave, with the call as a mathematical value.
pub open spec fn answer(r: Result<NativeCall, CallError>) -> Result<CallView, CallError> {
    match r {
        Ok(call) => Ok(call@),
        Err(e) => Err(e),
    }
}

/// What releasing gives: the call that frees the handle, from a wrapper
/// that still has it.
pub open spec fn release_outcome(live: bool) -> Option<CallView> {
    if live {
        Some(CallView::Destroy)
    } else {
        None
    }
}

/// A single input is refused exactly when marshalling it fails.
pub(crate) proof fn lemma_rejection_one(a: Seq<u8>)
    ensures
        rejection(seq![a]) == match marshalled(a) {
            Err(e) => Some(e),
            Ok(_) => None,
        },
{
    reveal_with_fuel(rejection, 2);
    assert(seq![a].drop_first() =~= Seq::<Seq<u8>>::empty());
}

/// Of two inputs the first is looked at first.
pub(crate) proof fn lemma_rejection_two(a: Seq<u8>, b: Seq<u8>)
    ensures
        rejection(seq![a, b]) == match marshalled(a) {
            Err(e) => Some(e),
            Ok(_) => rejection(seq![b]),
        },
{
    assert(seq![a, b].drop_first() =~= seq![b]);
}

/// Of three inputs the first is looked at first.
pub(crate) proof fn lemma_rejection_three(a: Seq<u8>, b: Seq<u8>, c: Seq<u8>)
    ensures
        rejection(seq![a, b, c]) == match marshalled(a) {
            Err(e) => Some(e),
            Ok(_) => rejection(seq![b, c]),
        },
{
    assert(seq![a, b, c].drop_first() =~= seq![b, c]);
}

/// Whether `k` is the first of `inputs` that holds a zero byte.
pub open spec fn is_first_refused(inputs: Seq<Seq<u8>>, k: int) -> bool {
    &&& 0 <= k < inputs.len()
    &&& has_nul(inputs[k])
    &&& forall|j: int| 0 <= j < k ==> !has_nul(#[trigger] inputs[j])
}

/// Whether each of `inputs` is no longer than a string in memory can be.
pub open spec fn fit_in_memory(inputs: Seq<Seq<u8>>) -> bool {
    forall|k: int| 0 <= k < inputs.len() ==> (#[trigger] inputs[k]).len() <= usize::MAX
}

/// Inputs are refused exactly when one of them holds a zero byte.
pub proof fn lemma_refused_iff(inputs: Seq<Seq<u8>>)
    ensures
        rejection(inputs) is Some <==> exists|k: int|
            0 <= k < inputs.len() && has_nul(#[trigger] inputs[k]),
    decreases inputs.len(),
{
    if inputs.len() > 0 {
        let rest = inputs.drop_first();
        lemma_refused_iff(rest);
        lemma_marshalled(inputs[0]);
        if !has_nul(inputs[0]) {
            if rejection(rest) is Some {
                let k = choose|k: int| 0 <= k < rest.len() && has_nul(#[trigger] rest[k]);
                assert(has_nul(inputs[k + 1]));
            }
            if exists|k: int| 0 <= k < inputs.len() && has_nul(#[trigger] inputs[k]) {
                let k = choose|k: int| 0 <= k < inputs.len() && has_nul(#[trigger] inputs[k]);
                assert(has_nul(rest[k - 1]));
            }
        }
    }
}

/// The error for refused inputs names the first zero byte of the first
/// input that holds one.
pub proof fn lemma_refusal_names_first(inputs: Seq<Seq<u8>>, k: int)
    requires
        fit_in_memory(inputs),
        is_first_refused(inputs, k),
    ensures
        rejection(inputs) is Some,
        is_first_nul(inputs[k], rejection(inputs)->0.nul_position as int),
    decreases inputs.len(),
{
    lemma_marshalled(inputs[0]);
    if k > 0 {
        let rest = inputs.drop_first();
        assert forall|j: int| 0 <= j < rest.len() implies (#[trigger] rest[j]).len()
            <= usize::MAX by {
            assert(rest[j] == inputs[j + 1]);
        }
        assert forall|j: int| 0 <= j < k - 1 implies !has_nul(#[trigger] rest[j]) by {
            assert(rest[j] == inputs[j + 1]);
        }
        lemma_refusal_names_first(rest, k - 1);
    }
}

/// A request of which an input holds a zero byte is refused with the
/// encoding error and gives no call, whether the wrapper is live or not.
pub proof fn lemma_request_with_zero_byte(request: Request, live: bool, k: int)
    requires
        0 <= k < request.inputs().len(),
        has_nul(request.inputs()[k]),
    ensures
        request.outcome(live) matches Err(CallError::Encoding(_)),
{
    lemma_refused_iff(request.inputs());
}

/// A request of which no input holds a zero byte gives its call on a live
/// wrapper, and is refused as released on another.
pub proof fn lemma_request_without_zero_byte(request: Request, live: bool)
    requires
        forall|k: int| 0 <= k < request.inputs().len() ==> !has_nul(#[trigger] request.inputs()[k]),
    ensures
        request.outcome(live) == if live {
            Ok::<CallView, CallError>(request.call())
        } else {
            Err::<CallView, CallError>(CallError::Released)
        },
{
    lemma_refused_iff(request.inputs());
}

/// A creation gives its call exactly when none of its inputs holds a zero
/// byte; otherwise it is refused, and there is no call.
pub proof fn lemma_creation_refused_iff(creation: Creation)
    ensures
        creation.outcome() is Err <==> exists|k: int|
            0 <= k < creation.inputs().len() && has_nul(#[trigger] creation.inputs()[k]),
        creation.outcome() is Ok ==> creation.outcome() == Ok::<CallView, EncodingError>(
            creation.call(),
        ),
{
    lemma_refused_iff(creation.inputs());
}

} // verus!
