use vstd::prelude::*;

verus! {

/// A word and its translation, as handed to a caller.
#[derive(Debug)]
pub struct WordTranslation {
    pub word: String,
    pub translation: String,
}

impl WordTranslation {
    pub fn new(word: String, translation: String) -> (r: WordTranslation)
        ensures
            r.word@ == word@,
            r.translation@ == translation@,
    {
        WordTranslation { word, translation }
    }
}

/// The body of a reply to a caller who asked for words.
pub struct WordResponse {
    pub words: Vec<WordTranslation>,
}

impl WordResponse {
    pub fn new(words: Vec<WordTranslation>) -> (r: WordResponse)
        ensures
            r.words == words,
    {
        WordResponse { words }
    }
}

} // verus!
