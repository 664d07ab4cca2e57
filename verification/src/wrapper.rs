//! The wrapper around one engine handle.
//!
//! A `Hunspell` stands for one loaded pair of affix file and dictionary. It
//! turns each request into the call that the driver is to make on the
//! handle, refuses input that cannot cross to the engine, and keeps track
//! of whether the handle has been given up, so that the handle is freed
//! once and nothing is called on it afterwards.

use crate::call::{CallView, NativeCall};
use crate::cstring::{c_string, has_nul, lemma_marshalled, to_c_bytes, EncodingError};
use crate::request::{
    answer, lemma_rejection_one, lemma_rejection_three, lemma_rejection_two, rejection,
    release_outcome, CallError, Creation, Request,
};
use vstd::prelude::*;
use vstd::string::StringSliceAdditionalSpecFns;

verus! {

/// One engine handle, as the wrapper sees it: live from its creation until
/// it is released.
#[derive(Debug)]
pub struct Hunspell {
    released: bool,
}

impl Hunspell {
    /// Whether the handle has not been given up yet.
    pub closed spec fn live(&self) -> bool {
        !self.released
    }

    /// Whether the handle has not been given up yet.
    pub fn is_live(&self) -> (b: bool)
        ensures
            b == self.live(),
    {
        !self.released
    }

    /// Starts a wrapper for an affix file and a dictionary, and gives the
    /// call that loads them. A path with a zero byte is refused, the affix
    /// path first, and then there is neither a wrapper nor a call. Whether
    /// the engine could load the files is not known here: it answers with
    /// a handle either way.
    pub fn new(affpath: &str, dicpath: &str) -> (r: Result<(Hunspell, NativeCall), EncodingError>)
        ensures
            r is Ok <==> !has_nul(affpath.spec_bytes()) && !has_nul(dicpath.spec_bytes()),
            match r {
                Ok((wrapper, call)) => {
                    &&& wrapper.live()
                    &&& call@ == CallView::Create {
                        affpath: c_string(affpath.spec_bytes()),
                        dicpath: c_string(dicpath.spec_bytes()),
                    }
                    &&& Creation::Plain {
                        affpath: affpath.spec_bytes(),
                        dicpath: dicpath.spec_bytes(),
                    }.outcome() == Ok::<CallView, EncodingError>(call@)
                },
                Err(e) => Creation::Plain {
                    affpath: affpath.spec_bytes(),
                    dicpath: dicpath.spec_bytes(),
                }.outcome() == Err::<CallView, EncodingError>(e),
            },
    {
        proof {
            lemma_rejection_two(affpath.spec_bytes(), dicpath.spec_bytes());
            lemma_rejection_one(dicpath.spec_bytes());
            lemma_marshalled(affpath.spec_bytes());
            lemma_marshalled(dicpath.spec_bytes());
        }
        let affpath = match to_c_bytes(affpath) {
            Ok(bytes) => bytes,
            Err(e) => return Err(e),
        };
        let dicpath = match to_c_bytes(dicpath) {
            Ok(bytes) => bytes,
            Err(e) => return Err(e),
        };
        Ok((Hunspell { released: false }, NativeCall::Create { affpath, dicpath }))
    }

    /// As `new`, for a dictionary protected by a key. The key is
    /// marshalled last.
    pub fn new_with_key(affpath: &str, dicpath: &str, key: &str) -> (r: Result<
        (Hunspell, NativeCall),
        EncodingError,
    >)
        ensures
            r is Ok <==> !has_nul(affpath.spec_bytes()) && !has_nul(dicpath.spec_bytes())
                && !has_nul(key.spec_bytes()),
            match r {
                Ok((wrapper, call)) => {
                    &&& wrapper.live()
                    &&& call@ == CallView::CreateKey {
                        affpath: c_string(affpath.spec_bytes()),
                        dicpath: c_string(dicpath.spec_bytes()),
                        key: c_string(key.spec_bytes()),
                    }
                    &&& Creation::Keyed {
                        affpath: affpath.spec_bytes(),
                        dicpath: dicpath.spec_bytes(),
                        key: key.spec_bytes(),
                    }.outcome() == Ok::<CallView, EncodingError>(call@)
                },
                Err(e) => Creation::Keyed {
                    affpath: affpath.spec_bytes(),
                    dicpath: dicpath.spec_bytes(),
                    key: key.spec_bytes(),
                }.outcome() == Err::<CallView, EncodingError>(e),
            },
    {
        proof {
            lemma_rejection_three(affpath.spec_bytes(), dicpath.spec_bytes(), key.spec_bytes());
            lemma_rejection_two(dicpath.spec_bytes(), key.spec_bytes());
            lemma_rejection_one(key.spec_bytes());
            lemma_marshalled(affpath.spec_bytes());
            lemma_marshalled(dicpath.spec_bytes());
            lemma_marshalled(key.spec_bytes());
        }
        let affpath = match to_c_bytes(affpath) {
            Ok(bytes) => bytes,
            Err(e) => return Err(e),
        };
        let dicpath = match to_c_bytes(dicpath) {
            Ok(bytes) => bytes,
            Err(e) => return Err(e),
        };
        let key = match to_c_bytes(key) {
            Ok(bytes) => bytes,
            Err(e) => return Err(e),
        };
        Ok((Hunspell { released: false }, NativeCall::CreateKey { affpath, dicpath, key }))
    }

    /// Marshals the one input of a request and checks that the handle is
    /// still there.
    fn one_input(&self, input: &str) -> (r: Result<Vec<u8>, CallError>)
        ensures
            r is Ok <==> self.live() && !has_nul(input.spec_bytes()),
            r matches Err(CallError::Encoding(_)) <==> has_nul(input.spec_bytes()),
            match r {
                Ok(bytes) => {
                    &&& rejection(seq![input.spec_bytes()]) is None
                    &&& bytes@ == c_string(input.spec_bytes())
                },
                Err(CallError::Encoding(e)) => rejection(seq![input.spec_bytes()]) == Some(e),
                Err(CallError::Released) => rejection(seq![input.spec_bytes()]) is None,
            },
    {
        proof {
            lemma_rejection_one(input.spec_bytes());
            lemma_marshalled(input.spec_bytes());
        }
        let bytes = match to_c_bytes(input) {
            Ok(bytes) => bytes,
            Err(e) => return Err(CallError::Encoding(e)),
        };
        if self.released {
            return Err(CallError::Released);
        }
        Ok(bytes)
    }

    /// Asks for a further dictionary to be searched by later queries. The
    /// engine answers with a status, which `accepted` reads. The wrapper
    /// itself is left as it was.
    pub fn add_dictionary(&mut self, dicpath: &str) -> (r: Result<NativeCall, CallError>)
        ensures
            *final(self) == *old(self),
            answer(r) == (Request::AddDictionary { dicpath: dicpath.spec_bytes() }).outcome(
                old(self).live(),
            ),
            r is Ok <==> old(self).live() && !has_nul(dicpath.spec_bytes()),
            r matches Ok(call) ==> call@ == (CallView::AddDic {
                dicpath: c_string(dicpath.spec_bytes()),
            }),
            r matches Err(CallError::Encoding(_)) <==> has_nul(dicpath.spec_bytes()),
    {
        match self.one_input(dicpath) {
            Ok(dicpath) => Ok(NativeCall::AddDic { dicpath }),
            Err(e) => Err(e),
        }
    }

    /// Asks for a word to be added to the run-time dictionary, where it
    /// stays for the life of the handle. The engine answers with a status,
    /// which `accepted` reads. The wrapper itself is left as it was.
    pub fn add(&mut self, word: &str) -> (r: Result<NativeCall, CallError>)
        ensures
            *final(self) == *old(self),
            answer(r) == (Request::Add { word: word.spec_bytes() }).outcome(old(self).live()),
            r is Ok <==> old(self).live() && !has_nul(word.spec_bytes()),
            r matches Ok(call) ==> call@ == (CallView::Add { word: c_string(word.spec_bytes()) }),
            r matches Err(CallError::Encoding(_)) <==> has_nul(word.spec_bytes()),
    {
        match self.one_input(word) {
            Ok(word) => Ok(NativeCall::Add { word }),
            Err(e) => Err(e),
        }
    }

    /// Asks whether a word is known. The engine answers with a status,
    /// which `CheckResult::from_status` reads.
    pub fn check(&self, word: &str) -> (r: Result<NativeCall, CallError>)
        ensures
            answer(r) == (Request::Check { word: word.spec_bytes() }).outcome(self.live()),
            r is Ok <==> self.live() && !has_nul(word.spec_bytes()),
            r matches Ok(call) ==> call@ == (CallView::Spell { word: c_string(word.spec_bytes()) }),
            r matches Err(CallError::Encoding(_)) <==> has_nul(word.spec_bytes()),
    {
        match self.one_input(word) {
            Ok(word) => Ok(NativeCall::Spell { word }),
            Err(e) => Err(e),
        }
    }

    /// Asks for other spellings of a word. The engine answers with a list.
    pub fn suggest(&self, word: &str) -> (r: Result<NativeCall, CallError>)
        ensures
            answer(r) == (Request::Suggest { word: word.spec_bytes() }).outcome(self.live()),
            r is Ok <==> self.live() && !has_nul(word.spec_bytes()),
            r matches Ok(call) ==> call@ == (CallView::Suggest {
                word: c_string(word.spec_bytes()),
            }),
            r matches Err(CallError::Encoding(_)) <==> has_nul(word.spec_bytes()),
    {
        match self.one_input(word) {
            Ok(word) => Ok(NativeCall::Suggest { word }),
            Err(e) => Err(e),
        }
    }

    /// Asks for the morphological analyses of a word. The engine answers
    /// with a list.
    pub fn analyze(&self, word: &str) -> (r: Result<NativeCall, CallError>)
        ensures
            answer(r) == (Request::Analyze { word: word.spec_bytes() }).outcome(self.live()),
            r is Ok <==> self.live() && !has_nul(word.spec_bytes()),
            r matches Ok(call) ==> call@ == (CallView::Analyze {
                word: c_string(word.spec_bytes()),
            }),
            r matches Err(CallError::Encoding(_)) <==> has_nul(word.spec_bytes()),
    {
        match self.one_input(word) {
            Ok(word) => Ok(NativeCall::Analyze { word }),
            Err(e) => Err(e),
        }
    }

    /// Asks for the stems of a word. The engine answers with a list.
    pub fn stem(&self, word: &str) -> (r: Result<NativeCall, CallError>)
        ensures
            answer(r) == (Request::Stem { word: word.spec_bytes() }).outcome(self.live()),
            r is Ok <==> self.live() && !has_nul(word.spec_bytes()),
            r matches Ok(call) ==> call@ == (CallView::Stem { word: c_string(word.spec_bytes()) }),
            r matches Err(CallError::Encoding(_)) <==> has_nul(word.spec_bytes()),
    {
        match self.one_input(word) {
            Ok(word) => Ok(NativeCall::Stem { word }),
            Err(e) => Err(e),
        }
    }

    /// Asks for the forms of `word1` made after the pattern of `word2`.
    /// The engine answers with a list. `word1` is marshalled first.
    pub fn generate(&self, word1: &str, word2: &str) -> (r: Result<NativeCall, CallError>)
        ensures
            answer(r) == (Request::Generate {
                word1: word1.spec_bytes(),
                word2: word2.spec_bytes(),
            }).outcome(self.live()),
            r is Ok <==> self.live() && !has_nul(word1.spec_bytes()) && !has_nul(
                word2.spec_bytes(),
            ),
            r matches Ok(call) ==> call@ == (CallView::Generate {
                word1: c_string(word1.spec_bytes()),
                word2: c_string(word2.spec_bytes()),
            }),
            r matches Err(CallError::Encoding(_)) <==> has_nul(word1.spec_bytes()) || has_nul(
                word2.spec_bytes(),
            ),
    {
        proof {
            lemma_rejection_two(word1.spec_bytes(), word2.spec_bytes());
            lemma_marshalled(word1.spec_bytes());
        }
        let word1 = match to_c_bytes(word1) {
            Ok(bytes) => bytes,
            Err(e) => return Err(CallError::Encoding(e)),
        };
        match self.one_input(word2) {
            Ok(word2) => Ok(NativeCall::Generate { word1, word2 }),
            Err(e) => Err(e),
        }
    }

    /// Gives the handle up. The first release gives the call that frees
    /// the handle; the wrapper is released from then on, and a further
    /// release gives no call.
    #[must_use]
    pub fn release(&mut self) -> (call: Option<NativeCall>)
        ensures
            !final(self).live(),
            call is Some <==> old(self).live(),
            call matches Some(c) ==> c@ == CallView::Destroy,
            match call {
                Some(c) => release_outcome(old(self).live()) == Some(c@),
                None => release_outcome(old(self).live()) is None,
            },
    {
        if self.released {
            None
        } else {
            self.released = true;
            Some(NativeCall::Destroy)
        }
    }
}

} // verus!
