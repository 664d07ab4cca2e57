use hunspell_rs::{accepted, extract, CheckResult, Hunspell, NativeCall, OutputList};

/// A stand-in for the engine. It answers the calls that a wrapper gives,
/// from word lists that it keeps per dictionary path, and counts what it
/// was asked to create and to free.
struct Engine {
    words: Vec<String>,
    created: u32,
    destroyed: u32,
    lists_given: u32,
    lists_freed: u32,
}

enum Answer {
    Handle,
    Status(i32),
    List { count: i32, list: Option<Vec<Option<Vec<u8>>>> },
    Nothing,
}

fn text(bytes: &[u8]) -> String {
    assert_eq!(bytes.last(), Some(&0));
    assert_eq!(bytes.iter().filter(|b| **b == 0).count(), 1);
    String::from_utf8(bytes[..bytes.len() - 1].to_vec()).unwrap()
}

fn words_of(dicpath: &str) -> Vec<String> {
    let words: &[&str] = match dicpath {
        "tests/fixtures/reduced.dic" => &["cat", "cats", "program", "programs"],
        "tests/fixtures/extra.dic" => &["systemdunits"],
        _ => &[],
    };
    words.iter().map(|w| String::from(*w)).collect()
}

impl Engine {
    fn new() -> Engine {
        Engine { words: Vec::new(), created: 0, destroyed: 0, lists_given: 0, lists_freed: 0 }
    }

    fn knows(&self, word: &str) -> bool {
        self.words.iter().any(|w| w == word)
    }

    fn list(&mut self, found: Vec<String>) -> Answer {
        if found.is_empty() {
            return Answer::List { count: 0, list: None };
        }
        self.lists_given += 1;
        Answer::List {
            count: found.len() as i32,
            list: Some(found.into_iter().map(|w| Some(w.into_bytes())).collect()),
        }
    }

    fn perform(&mut self, call: &NativeCall) -> Answer {
        assert_eq!(self.destroyed, 0, "a call after the handle was freed");
        match call {
            NativeCall::Create { affpath, dicpath } => {
                assert_eq!(text(affpath), "tests/fixtures/reduced.aff");
                self.words = words_of(&text(dicpath));
                self.created += 1;
                Answer::Handle
            }
            NativeCall::CreateKey { dicpath, .. } => {
                self.words = words_of(&text(dicpath));
                self.created += 1;
                Answer::Handle
            }
            NativeCall::AddDic { dicpath } => {
                let more = words_of(&text(dicpath));
                if more.is_empty() {
                    Answer::Status(1)
                } else {
                    self.words.extend(more);
                    Answer::Status(0)
                }
            }
            NativeCall::Add { word } => {
                self.words.push(text(word));
                Answer::Status(0)
            }
            NativeCall::Spell { word } => {
                Answer::Status(if self.knows(&text(word)) { 1 } else { 0 })
            }
            NativeCall::Suggest { word } => {
                let word = text(word);
                let found = self.words.iter().filter(|w| w.starts_with(&word)).cloned().collect();
                self.list(found)
            }
            NativeCall::Stem { word } | NativeCall::Analyze { word } => {
                let word = text(word);
                let found = match word.strip_suffix('s') {
                    Some(stem) if self.knows(stem) => vec![String::from(stem)],
                    _ if self.knows(&word) => vec![word],
                    _ => vec![],
                };
                self.list(found)
            }
            NativeCall::Generate { word1, word2 } => {
                let (word1, word2) = (text(word1), text(word2));
                let found = if word2.ends_with('s') && self.knows(&word1) {
                    vec![format!("{}s", word1)]
                } else {
                    vec![]
                };
                self.list(found)
            }
            NativeCall::FreeList { count } => {
                assert_ne!(*count, 0);
                self.lists_freed += 1;
                Answer::Nothing
            }
            NativeCall::Destroy => {
                self.destroyed += 1;
                Answer::Nothing
            }
        }
    }
}

/// A wrapper and the engine it drives, wired together as a driver would.
struct Session {
    wrapper: Hunspell,
    engine: Engine,
}

impl Session {
    fn new(affpath: &str, dicpath: &str) -> Session {
        let mut engine = Engine::new();
        let (wrapper, call) = Hunspell::new(affpath, dicpath).unwrap();
        assert!(matches!(engine.perform(&call), Answer::Handle));
        Session { wrapper, engine }
    }

    fn status(&mut self, call: NativeCall) -> i32 {
        match self.engine.perform(&call) {
            Answer::Status(status) => status,
            _ => panic!("the engine answers this call with a status"),
        }
    }

    fn strings(&mut self, call: NativeCall) -> Vec<String> {
        let (count, list) = match self.engine.perform(&call) {
            Answer::List { count, list } => (count, list),
            _ => panic!("the engine answers this call with a list"),
        };
        let output = OutputList { count, present: list.is_some() };
        let entries: Vec<Option<Vec<u8>>> = match list {
            Some(all) => all.into_iter().take(output.len()).collect(),
            None => Vec::new(),
        };
        assert_eq!(entries.len(), output.len());
        let extraction = extract(&entries);
        if let Some(free) = output.release() {
            self.engine.perform(&free);
        }
        extraction.strings
    }

    fn check(&mut self, word: &str) -> CheckResult {
        let call = self.wrapper.check(word).unwrap();
        CheckResult::from_status(self.status(call))
    }

    fn add(&mut self, word: &str) -> bool {
        let call = self.wrapper.add(word).unwrap();
        accepted(self.status(call))
    }

    fn add_dictionary(&mut self, dicpath: &str) -> bool {
        let call = self.wrapper.add_dictionary(dicpath).unwrap();
        accepted(self.status(call))
    }

    fn suggest(&mut self, word: &str) -> Vec<String> {
        let call = self.wrapper.suggest(word).unwrap();
        self.strings(call)
    }

    fn analyze(&mut self, word: &str) -> Vec<String> {
        let call = self.wrapper.analyze(word).unwrap();
        self.strings(call)
    }

    fn stem(&mut self, word: &str) -> Vec<String> {
        let call = self.wrapper.stem(word).unwrap();
        self.strings(call)
    }

    fn generate(&mut self, word1: &str, word2: &str) -> Vec<String> {
        let call = self.wrapper.generate(word1, word2).unwrap();
        self.strings(call)
    }

    fn end(mut self) -> Engine {
        if let Some(call) = self.wrapper.release() {
            self.engine.perform(&call);
        }
        if let Some(call) = self.wrapper.release() {
            self.engine.perform(&call);
        }
        self.engine
    }
}

#[test]
fn create_and_destroy() {
    let hs = Session::new("tests/fixtures/reduced.aff", "tests/fixtures/reduced.dic");
    let engine = hs.end();
    assert_eq!(engine.created, 1);
    assert_eq!(engine.destroyed, 1);
}

#[test]
fn check() {
    let mut hs = Session::new("tests/fixtures/reduced.aff", "tests/fixtures/reduced.dic");
    assert_eq!(hs.check("cats"), CheckResult::FoundInDictionary);
    assert_eq!(hs.check("nocats"), CheckResult::MissingInDictionary);
}

#[test]
fn check_with_added_word() {
    let mut hs = Session::new("tests/fixtures/reduced.aff", "tests/fixtures/reduced.dic");
    assert_eq!(hs.check("cats"), CheckResult::FoundInDictionary);
    assert_eq!(hs.check("octonasaurius"), CheckResult::MissingInDictionary);
    assert!(hs.add("octonasaurius"));
    assert_eq!(hs.check("octonasaurius"), CheckResult::FoundInDictionary);
}

#[test]
fn check_with_extra_dic() {
    let mut hs = Session::new("tests/fixtures/reduced.aff", "tests/fixtures/reduced.dic");
    assert_eq!(hs.check("cats"), CheckResult::FoundInDictionary);
    assert_eq!(hs.check("systemdunits"), CheckResult::MissingInDictionary);
    assert!(hs.add_dictionary("tests/fixtures/extra.dic"));
    assert_eq!(hs.check("cats"), CheckResult::FoundInDictionary);
    assert_eq!(hs.check("systemdunits"), CheckResult::FoundInDictionary);
}

#[test]
fn suggest() {
    let mut hs = Session::new("tests/fixtures/reduced.aff", "tests/fixtures/reduced.dic");
    assert!(hs.suggest("progra").len() > 0);
}

#[test]
fn stem() {
    let mut hs = Session::new("tests/fixtures/reduced.aff", "tests/fixtures/reduced.dic");
    let cat_stem = hs.stem("cats");
    assert!(cat_stem[0] == "cat");
}

#[test]
fn a_dictionary_that_the_engine_turns_down_is_not_accepted() {
    let mut hs = Session::new("tests/fixtures/reduced.aff", "tests/fixtures/reduced.dic");
    assert!(!hs.add_dictionary("tests/fixtures/missing.dic"));
    assert_eq!(hs.check("cats"), CheckResult::FoundInDictionary);
}

#[test]
fn analyze_and_generate_go_through_the_same_list_handling() {
    let mut hs = Session::new("tests/fixtures/reduced.aff", "tests/fixtures/reduced.dic");
    assert_eq!(hs.analyze("cats"), vec!["cat"]);
    assert_eq!(hs.generate("program", "cats"), vec!["programs"]);
    assert_eq!(hs.generate("program", "cat"), Vec::<String>::new());
}

#[test]
fn every_list_that_was_given_is_handed_back_once() {
    let mut hs = Session::new("tests/fixtures/reduced.aff", "tests/fixtures/reduced.dic");
    assert_eq!(hs.suggest("progra"), vec!["program", "programs"]);
    assert_eq!(hs.stem("cats"), vec!["cat"]);
    assert_eq!(hs.suggest("zzz"), Vec::<String>::new());
    assert_eq!(hs.stem("nocats"), Vec::<String>::new());
    let engine = hs.end();
    assert_eq!(engine.lists_given, 2);
    assert_eq!(engine.lists_freed, 2);
}

#[test]
fn the_handle_is_freed_once_whatever_happened_before() {
    let mut hs = Session::new("tests/fixtures/reduced.aff", "tests/fixtures/reduced.dic");
    assert!(hs.wrapper.check("ca\0ts").is_err());
    assert!(hs.wrapper.add("\0").is_err());
    assert_eq!(hs.check("cats"), CheckResult::FoundInDictionary);
    assert!(hs.wrapper.generate("a", "b\0").is_err());
    let engine = hs.end();
    assert_eq!(engine.created, 1);
    assert_eq!(engine.destroyed, 1);
}

#[test]
fn a_refused_creation_reaches_no_engine() {
    let engine = Engine::new();
    assert!(Hunspell::new("tests/fixtures/reduced.aff", "tests/\0fixtures/reduced.dic").is_err());
    assert_eq!(engine.created, 0);
    assert_eq!(engine.destroyed, 0);
}

#[test]
fn nothing_is_called_after_the_release() {
    let mut engine = Engine::new();
    let (mut wrapper, call) =
        Hunspell::new("tests/fixtures/reduced.aff", "tests/fixtures/reduced.dic").unwrap();
    let mut calls = vec![call];
    calls.extend(wrapper.check("cats").ok());
    calls.extend(wrapper.release());
    calls.extend(wrapper.check("cats").ok());
    calls.extend(wrapper.suggest("progra").ok());
    calls.extend(wrapper.release());
    calls.extend(wrapper.add("dog").ok());
    assert_eq!(calls.len(), 3);
    assert_eq!(calls.last(), Some(&NativeCall::Destroy));
    assert_eq!(calls.iter().filter(|c| **c == NativeCall::Destroy).count(), 1);
    for call in &calls {
        engine.perform(call);
    }
    assert_eq!(engine.created, 1);
    assert_eq!(engine.destroyed, 1);
}
