//! What one walk over a tree owns: the output written so far, the tokens
//! marked for blanking and for skipping, and the names to export.

use vstd::prelude::*;
use rustc_hash::FxHashSet;
use crate::marks::{empty_set, holds_key, insert_key, remove_key};
use crate::text::{blank, blanked, views};
use crate::tree::{referents, Token, TokenKey};

verus! {

/// The state of a walk, as a mathematical value.
pub struct WalkState {
    /// The output written so far.
    pub out: Seq<char>,
    /// The keys of the tokens that are written as whitespace when reached.
    pub blanks: Set<TokenKey>,
    /// The keys of the tokens that are left out when reached.
    pub skips: Set<TokenKey>,
    /// The names that declarations have exported so far.
    pub exports: Seq<Seq<char>>,
}

/// What every output starts with.
pub open spec fn prologue() -> Seq<char> {
    "(function(exports,require,module){"@
}

impl WalkState {
    /// The state in which a walk starts.
    pub open spec fn initial() -> WalkState {
        WalkState {
            out: prologue(),
            blanks: Set::empty(),
            skips: Set::empty(),
            exports: Seq::empty(),
        }
    }

    /// No token is marked both for blanking and for skipping.
    pub open spec fn well_formed(self) -> bool {
        self.blanks.disjoint(self.skips)
    }

    /// The state after `text` has been written.
    pub open spec fn emit(self, text: Seq<char>) -> WalkState {
        WalkState { out: self.out + text, ..self }
    }

    /// The state after the token `key` has been marked for blanking. The mark
    /// replaces one for skipping.
    pub open spec fn blank(self, key: TokenKey) -> WalkState {
        WalkState { blanks: self.blanks.insert(key), skips: self.skips.remove(key), ..self }
    }

    /// The state after the token `key` has been marked for skipping. A token
    /// that is marked for blanking stays so.
    pub open spec fn skip(self, key: TokenKey) -> WalkState {
        if self.blanks.contains(key) {
            self
        } else {
            WalkState { skips: self.skips.insert(key), ..self }
        }
    }

    /// The state after all of `tokens` have been marked for blanking.
    pub open spec fn blank_all(self, tokens: Seq<Token>) -> WalkState
        decreases tokens.len(),
    {
        if tokens.len() == 0 {
            self
        } else {
            self.blank_all(tokens.drop_last()).blank(tokens.last().key)
        }
    }

    /// The state after `names` have been added to the exports.
    pub open spec fn export_all(self, names: Seq<Seq<char>>) -> WalkState {
        WalkState { exports: self.exports + names, ..self }
    }

    /// The state after `token` has been reached: a token marked for blanking
    /// is written as whitespace, one marked for skipping is left out, any
    /// other is written as it is; a mark is removed when it is used.
    pub open spec fn visit(self, token: Token) -> WalkState {
        if self.blanks.contains(token.key) {
            WalkState {
                out: self.out + blanked(token.full_text()),
                blanks: self.blanks.remove(token.key),
                ..self
            }
        } else if self.skips.contains(token.key) {
            WalkState { skips: self.skips.remove(token.key), ..self }
        } else {
            self.emit(token.full_text())
        }
    }
}

/// The state of a walk.
pub struct Walker {
    pub buf: String,
    pub blanks: FxHashSet<TokenKey>,
    pub skips: FxHashSet<TokenKey>,
    pub exports: Vec<String>,
}

impl View for Walker {
    type V = WalkState;

    open spec fn view(&self) -> WalkState {
        WalkState {
            out: self.buf@,
            blanks: self.blanks@,
            skips: self.skips@,
            exports: views(self.exports@),
        }
    }
}

impl Walker {
    /// Starts a walk: the output holds the prologue, no token is marked and
    /// no name is exported.
    pub fn new() -> (walker: Walker)
        ensures
            walker@ == WalkState::initial(),
    {
        let walker = Walker {
            buf: "(function(exports,require,module){".to_owned(),
            blanks: empty_set(),
            skips: empty_set(),
            exports: Vec::new(),
        };
        assert(views(walker.exports@) == Seq::<Seq<char>>::empty());
        walker
    }

    /// Writes `text` to the output.
    pub fn emit(&mut self, text: &str)
        ensures
            final(self)@ == old(self)@.emit(text@),
    {
        self.buf.push_str(text);
    }

    /// Marks the token `key` for blanking.
    pub fn mark_blank(&mut self, key: TokenKey)
        ensures
            final(self)@ == old(self)@.blank(key),
            old(self)@.well_formed() ==> final(self)@.well_formed(),
    {
        insert_key(&mut self.blanks, key);
        let _ = remove_key(&mut self.skips, key);
    }

    /// Marks the token `key` for skipping, unless it is marked for blanking.
    pub fn mark_skip(&mut self, key: TokenKey)
        ensures
            final(self)@ == old(self)@.skip(key),
            old(self)@.well_formed() ==> final(self)@.well_formed(),
    {
        if !holds_key(&self.blanks, key) {
            insert_key(&mut self.skips, key);
        }
    }

    /// Marks all of `tokens` for blanking.
    pub fn mark_blank_all(&mut self, tokens: &Vec<&Token>)
        ensures
            final(self)@ == old(self)@.blank_all(referents(tokens@)),
            old(self)@.well_formed() ==> final(self)@.well_formed(),
    {
        let ghost all = referents(tokens@);
        let mut index: usize = 0;
        while index < tokens.len()
            invariant
                index <= tokens.len(),
                all == referents(tokens@),
                self@ == old(self)@.blank_all(all.take(index as int)),
                old(self)@.well_formed() ==> self@.well_formed(),
            decreases tokens.len() - index,
        {
            proof {
                assert(all.take(index + 1).drop_last() == all.take(index as int));
                assert(all.take(index + 1).last() == *tokens@[index as int]);
            }
            self.mark_blank(tokens[index].key);
            index = index + 1;
        }
        proof {
            assert(all.take(tokens.len() as int) == all);
        }
    }

    /// Adds `names` to the exports.
    pub fn export_all(&mut self, names: Vec<String>)
        ensures
            final(self)@ == old(self)@.export_all(views(names@)),
    {
        let mut names = names;
        let ghost added = views(names@);
        let ghost before = views(self.exports@);
        self.exports.append(&mut names);
        assert(views(self.exports@) == before + added);
    }

    /// Reaches `token`: writes it, blanked if it is marked for blanking, and
    /// not at all if it is marked for skipping.
    pub fn visit(&mut self, token: &Token)
        ensures
            final(self)@ == old(self)@.visit(*token),
            old(self)@.well_formed() ==> final(self)@.well_formed(),
    {
        if remove_key(&mut self.blanks, token.key) {
            blank(&mut self.buf, token.leading.as_str());
            blank(&mut self.buf, token.text.as_str());
            blank(&mut self.buf, token.trailing.as_str());
            assert(self.buf@ == old(self).buf@ + blanked(token.full_text()));
        } else {
            assert(self.blanks@ == old(self).blanks@);
            if remove_key(&mut self.skips, token.key) {
            } else {
                assert(self.skips@ == old(self).skips@);
                self.buf.push_str(token.leading.as_str());
                self.buf.push_str(token.text.as_str());
                self.buf.push_str(token.trailing.as_str());
                assert(self.buf@ == old(self).buf@ + token.full_text());
            }
        }
    }
}

} // verus!
