use crate::emote::{Emote, EmoteCacheTrait, EmoteView};
use vstd::prelude::*;

verus! {

/// A piece of a chat message as the interface renders it.
#[derive(Clone, Debug, PartialEq)]
pub enum Fragment {
    Text(TextFragment),
    Emote(EmoteFragment),
    Cheer(CheerFragment),
}

/// A run of plain text.
#[derive(Clone, Debug, PartialEq)]
pub struct TextFragment {
    pub index: u64,
    pub text: String,
}

/// An emote named in the text.
#[derive(Clone, Debug, PartialEq)]
pub struct EmoteFragment {
    pub index: u64,
    pub emote: Emote,
}

/// A cheer named in the text.
#[derive(Clone, Debug, PartialEq)]
pub struct CheerFragment {
    pub index: u64,
    pub text: String,
}

/// What a fragment holds.
pub enum FragmentView {
    Text { index: u64, text: Seq<char> },
    Emote { index: u64, emote: EmoteView },
    Cheer { index: u64, text: Seq<char> },
}

impl View for Fragment {
    type V = FragmentView;

    open spec fn view(&self) -> FragmentView {
        match self {
            Fragment::Text(t) => FragmentView::Text { index: t.index, text: t.text@ },
            Fragment::Emote(e) => FragmentView::Emote { index: e.index, emote: e.emote@ },
            Fragment::Cheer(c) => FragmentView::Cheer { index: c.index, text: c.text@ },
        }
    }
}

/// Whether std counts `c` as alphabetic or numeric.
pub uninterp spec fn alphanumeric(c: char) -> bool;

/// Relies on char::is_alphanumeric: the Unicode Alphabetic or Numeric
/// property of the char alone.
#[verifier::external_body]
fn is_alphanumeric(c: char) -> (r: bool)
    ensures
        r == alphanumeric(c),
{
    c.is_alphanumeric()
}

/// Relies on String::push: appends the char.
#[verifier::external_body]
fn push_char(s: &mut String, c: char)
    ensures
        final(s)@ == old(s)@.push(c),
{
    s.push(c)
}

/// Where a parse stands: the fragments so far, the text not yet in a
/// fragment, and the word being read.
pub struct ParseState {
    pub frags: Seq<FragmentView>,
    pub current: Seq<char>,
    pub word: Seq<char>,
}

/// `frags` with the pending text as a fragment of its own, if there is any.
pub open spec fn flush(frags: Seq<FragmentView>, current: Seq<char>) -> Seq<FragmentView> {
    if current.len() > 0 {
        frags.push(FragmentView::Text { index: frags.len() as u64, text: current })
    } else {
        frags
    }
}

/// The end of a word: a word that names an emote becomes an emote fragment,
/// after the pending text; any other word joins the pending text.
pub open spec fn end_word(lookup: spec_fn(Seq<char>) -> Option<EmoteView>, st: ParseState) -> ParseState {
    match lookup(st.word) {
        Some(e) => {
            let f = flush(st.frags, st.current);
            ParseState {
                frags: f.push(FragmentView::Emote { index: f.len() as u64, emote: e }),
                current: seq![],
                word: seq![],
            }
        },
        None => ParseState { frags: st.frags, current: st.current + st.word, word: seq![] },
    }
}

/// Reading one char: alphanumeric chars make up words; any other char ends
/// the word and joins the pending text.
pub open spec fn parse_step(lookup: spec_fn(Seq<char>) -> Option<EmoteView>, st: ParseState, c: char) -> ParseState {
    if alphanumeric(c) {
        ParseState { word: st.word.push(c), ..st }
    } else {
        let s2 = end_word(lookup, st);
        ParseState { current: s2.current.push(c), ..s2 }
    }
}

/// The state after reading `chars`.
pub open spec fn parse_prefix(lookup: spec_fn(Seq<char>) -> Option<EmoteView>, chars: Seq<char>) -> ParseState
    decreases chars.len(),
{
    if chars.len() == 0 {
        ParseState { frags: seq![], current: seq![], word: seq![] }
    } else {
        parse_step(lookup, parse_prefix(lookup, chars.drop_last()), chars.last())
    }
}

/// The fragments of a message: the last word ends with the text, and the
/// pending text becomes the last fragment.
pub open spec fn parse_spec(lookup: spec_fn(Seq<char>) -> Option<EmoteView>, chars: Seq<char>) -> Seq<FragmentView> {
    let st = end_word(lookup, parse_prefix(lookup, chars));
    flush(st.frags, st.current)
}

/// The views of a list of fragments.
pub open spec fn fragments_view(v: Seq<Fragment>) -> Seq<FragmentView> {
    v.map_values(|f: Fragment| f@)
}

/// Splits chat text into text and emote fragments.
pub struct Parser {}

impl Parser {
    fn flush<C: EmoteCacheTrait>(result: &mut Vec<Fragment>, current: &mut String)
        requires
            old(result).len() < usize::MAX,
        ensures
            fragments_view(final(result)@) == flush(fragments_view(old(result)@), old(current)@),
            final(current)@ == Seq::<char>::empty(),
            final(result).len() <= old(result).len() + 1,
    {
        if !current.as_str().is_empty() {
            let text = current.clone();
            *current = String::new();
            let index = result.len() as u64;
            result.push(Fragment::Text(TextFragment { index, text }));
            proof {
                assert(fragments_view(final(result)@) =~= fragments_view(old(result)@).push(
                    FragmentView::Text { index, text: old(current)@ },
                ));
            }
        }
    }

    fn end_word<C: EmoteCacheTrait>(cache: &C, result: &mut Vec<Fragment>, current: &mut String, word: &mut String)
        requires
            old(result).len() + 2 < usize::MAX,
        ensures
            ({
                let st = end_word(
                    |k: Seq<char>| cache.emote_for(k),
                    ParseState { frags: fragments_view(old(result)@), current: old(current)@, word: old(word)@ },
                );
                &&& fragments_view(final(result)@) == st.frags
                &&& final(current)@ == st.current
                &&& final(word)@ == st.word
            }),
            final(result).len() <= old(result).len() + 2,
    {
        let w = word.clone();
        *word = String::new();
        match cache.get_emote(w.clone()) {
            Some(emote) => {
                Self::flush::<C>(result, current);
                let index = result.len() as u64;
                let ghost before = result@;
                result.push(Fragment::Emote(EmoteFragment { index, emote }));
                proof {
                    assert(fragments_view(result@) =~= fragments_view(before).push(
                        FragmentView::Emote { index, emote: emote@ },
                    ));
                }
            },
            None => {
                current.append(w.as_str());
            },
        }
    }

    /// Splits `message` into fragments numbered from 0: each word that names
    /// an emote of `cache` becomes an emote fragment, and the text between
    /// them becomes text fragments.
    pub fn parse<C: EmoteCacheTrait>(message: String, cache: &C) -> (r: Vec<Fragment>)
        requires
            message@.len() < usize::MAX / 4,
        ensures
            fragments_view(r@) == parse_spec(|k: Seq<char>| cache.emote_for(k), message@),
    {
        let ghost lookup = |k: Seq<char>| cache.emote_for(k);
        let n = message.as_str().unicode_len();
        let mut result: Vec<Fragment> = Vec::new();
        let mut current = String::new();
        let mut word = String::new();
        let mut i: usize = 0;
        while i < n
            invariant
                n == message@.len(),
                i <= n,
                n < usize::MAX / 4,
                result.len() <= 2 * i,
                lookup == (|k: Seq<char>| cache.emote_for(k)),
                ({
                    let st = parse_prefix(lookup, message@.take(i as int));
                    &&& fragments_view(result@) == st.frags
                    &&& current@ == st.current
                    &&& word@ == st.word
                }),
            decreases n - i,
        {
            let c = message.as_str().get_char(i);
            proof {
                assert(message@.take(i + 1).drop_last() =~= message@.take(i as int));
                assert(message@.take(i + 1).last() == c);
            }
            if is_alphanumeric(c) {
                push_char(&mut word, c);
            } else {
                Self::end_word(cache, &mut result, &mut current, &mut word);
                push_char(&mut current, c);
            }
            i = i + 1;
        }
        proof {
            assert(message@.take(n as int) =~= message@);
        }
        Self::end_word(cache, &mut result, &mut current, &mut word);
        Self::flush::<C>(&mut result, &mut current);
        result
    }
}

} // verus!
