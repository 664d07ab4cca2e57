//! The calls into the engine that the wrapper asks its driver to make.
//!
//! The wrapper never touches the engine itself. It decides which function
//! is to be called and with which bytes, and the driver that owns the
//! engine's handle carries the call out.

use vstd::prelude::*;

verus! {

/// One call into the engine. Every byte string in it is closed by a zero
/// byte and holds no other.
#[derive(Debug, PartialEq, Eq)]
pub enum NativeCall {
    /// Load an affix file and a dictionary; answers with the handle.
    Create { affpath: Vec<u8>, dicpath: Vec<u8> },
    /// As `Create`, for a dictionary protected by a key.
    CreateKey { affpath: Vec<u8>, dicpath: Vec<u8>, key: Vec<u8> },
    /// Add a further dictionary; answers with a status.
    AddDic { dicpath: Vec<u8> },
    /// Add a word to the run-time dictionary; answers with a status.
    Add { word: Vec<u8> },
    /// Ask whether a word is known; answers with a status.
    Spell { word: Vec<u8> },
    /// Ask for other spellings; answers with a list.
    Suggest { word: Vec<u8> },
    /// Ask for the morphological analyses; answers with a list.
    Analyze { word: Vec<u8> },
    /// Ask for the stems; answers with a list.
    Stem { word: Vec<u8> },
    /// Ask for the forms of `word1` after the pattern of `word2`; answers
    /// with a list.
    Generate { word1: Vec<u8>, word2: Vec<u8> },
    /// Hand a list of `count` entries back to the engine.
    FreeList { count: i32 },
    /// Free the handle.
    Destroy,
}

/// A call as a mathematical value.
pub enum CallView {
    Create { affpath: Seq<u8>, dicpath: Seq<u8> },
    CreateKey { affpath: Seq<u8>, dicpath: Seq<u8>, key: Seq<u8> },
    AddDic { dicpath: Seq<u8> },
    Add { word: Seq<u8> },
    Spell { word: Seq<u8> },
    Suggest { word: Seq<u8> },
    Analyze { word: Seq<u8> },
    Stem { word: Seq<u8> },
    Generate { word1: Seq<u8>, word2: Seq<u8> },
    FreeList { count: i32 },
    Destroy,
}

impl View for NativeCall {
    type V = CallView;

    open spec fn view(&self) -> CallView {
        match self {
            NativeCall::Create { affpath, dicpath } => CallView::Create {
                affpath: affpath@,
                dicpath: dicpath@,
            },
            NativeCall::CreateKey { affpath, dicpath, key } => CallView::CreateKey {
                affpath: affpath@,
                dicpath: dicpath@,
                key: key@,
            },
            NativeCall::AddDic { dicpath } => CallView::AddDic { dicpath: dicpath@ },
            NativeCall::Add { word } => CallView::Add { word: word@ },
            NativeCall::Spell { word } => CallView::Spell { word: word@ },
            NativeCall::Suggest { word } => CallView::Suggest { word: word@ },
            NativeCall::Analyze { word } => CallView::Analyze { word: word@ },
            NativeCall::Stem { word } => CallView::Stem { word: word@ },
            NativeCall::Generate { word1, word2 } => CallView::Generate {
                word1: word1@,
                word2: word2@,
            },
            NativeCall::FreeList { count } => CallView::FreeList { count: *count },
            NativeCall::Destroy => CallView::Destroy,
        }
    }
}

} // verus!
