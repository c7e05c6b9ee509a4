//! Random, readable item ids: a capitalised adjective followed by a
//! capitalised noun.
use vstd::prelude::*;
use vstd::string::*;
use rand::Rng;

use crate::names::valid_id;
use crate::upload::UploadError;

verus! {

/// What std's `str::to_uppercase` gives for a string.
pub uninterp spec fn upper_of(s: Seq<char>) -> Seq<char>;

/// Relies on std's `str::to_uppercase`, whose result depends on the
/// characters alone.
#[verifier::external_body]
fn to_upper(s: &str) -> (r: String)
    ensures
        r@ == upper_of(s@),
{
    s.to_uppercase()
}

/// Relies on rand's `Rng::gen_range` on the thread's generator, which gives a
/// value in `0..n` and panics only when `n` is zero.
#[verifier::external_body]
fn random_below(n: usize) -> (r: usize)
    requires
        n > 0,
    ensures
        r < n,
{
    rand::thread_rng().gen_range(0, n)
}

/// Relies on std's `String::from` for a `char`: a string of that one
/// character.
#[verifier::external_body]
fn char_string(c: char) -> (r: String)
    ensures
        r@ == seq![c],
{
    String::from(c)
}

/// `c` is an ASCII lowercase letter.
pub open spec fn is_ascii_lower(c: char) -> bool {
    'a' <= c && c <= 'z'
}

/// The uppercase form of an ASCII lowercase letter.
pub open spec fn ascii_upper(c: char) -> char {
    ((c as u8) - 32) as u8 as char
}

/// The first character uppercased, the rest unchanged; empty stays empty.
/// An ASCII lowercase letter becomes its ASCII capital; any other first
/// character is uppercased as std's `str::to_uppercase` does.
pub open spec fn capital_case(s: Seq<char>) -> Seq<char> {
    if s.len() == 0 {
        s
    } else if is_ascii_lower(s[0]) {
        seq![ascii_upper(s[0])] + s.subrange(1, s.len() as int)
    } else {
        upper_of(s.subrange(0, 1)) + s.subrange(1, s.len() as int)
    }
}

/// The pieces of `s` between line breaks, in order; always at least one.
pub open spec fn split_lines(s: Seq<char>) -> Seq<Seq<char>>
    decreases s.len(),
{
    if s.len() == 0 {
        seq![Seq::empty()]
    } else {
        let p = split_lines(s.drop_last());
        if s.last() == '\n' {
            p.push(Seq::empty())
        } else {
            p.update(p.len() - 1, p.last().push(s.last()))
        }
    }
}

/// The characters of each string.
pub open spec fn words_view(v: Seq<String>) -> Seq<Seq<char>> {
    v.map_values(|w: String| w@)
}

/// A phrase made of one adjective and one noun of the lists, both capitalised.
pub open spec fn is_phrase(adjectives: Seq<Seq<char>>, nouns: Seq<Seq<char>>, s: Seq<char>) -> bool {
    exists|i: int, j: int|
        0 <= i < adjectives.len() && 0 <= j < nouns.len() && s == capital_case(
            #[trigger] adjectives[i],
        ) + capital_case(#[trigger] nouns[j])
}

/// The phrase of the `i`th adjective and the `j`th noun.
pub open spec fn phrase_at(adjectives: Seq<Seq<char>>, nouns: Seq<Seq<char>>, i: int, j: int) -> Seq<
    char,
> {
    capital_case(adjectives[i]) + capital_case(nouns[j])
}

/// Every phrase the lists can make is a valid id that `existing` lacks, so
/// that any draw gives a usable id.
pub open spec fn every_phrase_free(
    adjectives: Seq<Seq<char>>,
    nouns: Seq<Seq<char>>,
    existing: Seq<Seq<char>>,
) -> bool {
    forall|i: int, j: int|
        0 <= i < adjectives.len() && 0 <= j < nouns.len() ==> valid_id(
            #[trigger] phrase_at(adjectives, nouns, i, j),
        ) && !existing.contains(phrase_at(adjectives, nouns, i, j))
}

/// Capitalises the first letter of an input string.
pub fn as_capital_case(input: &str) -> (r: String)
    ensures
        r@ == capital_case(input@),
{
    let n = input.unicode_len();
    if n == 0 {
        return String::new();
    }
    let c = input.get_char(0);
    let mut r = if 'a' <= c && c <= 'z' {
        char_string(((c as u8) - 32) as char)
    } else {
        to_upper(input.substring_char(0, 1))
    };
    r.append(input.substring_char(1, n));
    r
}

/// Splits text into its lines.
pub fn lines_of(s: &str) -> (r: Vec<String>)
    ensures
        words_view(r@) == split_lines(s@),
        r@.len() >= 1,
{
    let n = s.unicode_len();
    let mut pieces: Vec<String> = Vec::new();
    let mut start: usize = 0;
    let mut i: usize = 0;
    assert(words_view(pieces@) =~= Seq::empty());
    assert(s@.subrange(0, 0) =~= Seq::<char>::empty());
    assert(words_view(pieces@).push(s@.subrange(0, 0)) =~= split_lines(s@.subrange(0, 0)));
    while i < n
        invariant
            n == s@.len(),
            0 <= start <= i <= n,
            words_view(pieces@).push(s@.subrange(start as int, i as int)) == split_lines(
                s@.subrange(0, i as int),
            ),
        decreases n - i,
    {
        let c = s.get_char(i);
        let ghost prefix = s@.subrange(0, i + 1);
        assert(prefix.drop_last() =~= s@.subrange(0, i as int));
        let ghost old_pieces = pieces@;
        let ghost old_start = start;
        assert(prefix.last() == c);
        assert(split_lines(prefix) == {
            let p = split_lines(prefix.drop_last());
            if prefix.last() == '\n' {
                p.push(Seq::empty())
            } else {
                p.update(p.len() - 1, p.last().push(prefix.last()))
            }
        });
        if c == '\n' {
            let piece = String::from_str(s.substring_char(start, i));
            pieces.push(piece);
            start = i + 1;
            assert(words_view(pieces@) =~= words_view(old_pieces).push(
                s@.subrange(old_start as int, i as int),
            ));
            assert(split_lines(prefix.drop_last()) == words_view(old_pieces).push(
                s@.subrange(old_start as int, i as int),
            ));
            assert(s@.subrange(start as int, i + 1) =~= Seq::<char>::empty());
            assert(words_view(pieces@).push(s@.subrange(start as int, i + 1)) =~= split_lines(
                prefix,
            ));
        } else {
            let ghost p = split_lines(prefix.drop_last());
            assert(p == words_view(pieces@).push(s@.subrange(start as int, i as int)));
            assert(p.last() == s@.subrange(start as int, i as int));
            assert(s@.subrange(start as int, i as int).push(c) =~= s@.subrange(
                start as int,
                i + 1,
            ));
            assert(words_view(pieces@).push(s@.subrange(start as int, i + 1)) =~= split_lines(
                prefix,
            ));
        }
        i += 1;
    }
    let ghost old_pieces = pieces@;
    let last = String::from_str(s.substring_char(start, n));
    pieces.push(last);
    assert(words_view(pieces@) =~= words_view(old_pieces).push(s@.subrange(start as int, n as int)));
    assert(s@.subrange(0, n as int) =~= s@);
    assert(words_view(pieces@) =~= split_lines(s@));
    pieces
}

/// Whether one of `names` holds the same characters as `s`.
pub fn contains_name(names: &Vec<String>, s: &str) -> (r: bool)
    ensures
        r == exists|k: int| 0 <= k < names@.len() && (#[trigger] names@[k])@ == s@,
{
    let mut i: usize = 0;
    while i < names.len()
        invariant
            0 <= i <= names@.len(),
            forall|k: int| 0 <= k < i ==> (#[trigger] names@[k])@ != s@,
        decreases names@.len() - i,
    {
        if crate::names::str_equal(names[i].as_str(), s) {
            return true;
        }
        i += 1;
    }
    false
}

/// Attempts at a free id before giving up.
pub const MAX_NAME_ATTEMPTS: usize = 64;

/// Generates phrases from two word lists.
pub struct PhraseGenerator {
    adjectives: Vec<String>,
    nouns: Vec<String>,
}

impl PhraseGenerator {
    /// The adjectives, in order.
    pub closed spec fn adjective_words(&self) -> Seq<Seq<char>> {
        words_view(self.adjectives@)
    }

    /// The nouns, in order.
    pub closed spec fn noun_words(&self) -> Seq<Seq<char>> {
        words_view(self.nouns@)
    }

    /// Both lists have a word.
    pub open spec fn wf(&self) -> bool {
        self.adjective_words().len() > 0 && self.noun_words().len() > 0
    }

    /// Creates a generator from two texts with one word on each line.
    pub fn new(adjectives: &str, nouns: &str) -> (r: PhraseGenerator)
        ensures
            r.adjective_words() == split_lines(adjectives@),
            r.noun_words() == split_lines(nouns@),
            r.wf(),
    {
        PhraseGenerator { adjectives: lines_of(adjectives), nouns: lines_of(nouns) }
    }

    /// Whether both lists have a word, so that phrases can be drawn.
    pub fn has_words(&self) -> (r: bool)
        ensures
            r == self.wf(),
    {
        self.adjectives.len() > 0 && self.nouns.len() > 0
    }

    /// A phrase of one adjective and one noun, each drawn at random.
    pub fn generate(&self) -> (r: String)
        requires
            self.wf(),
        ensures
            is_phrase(self.adjective_words(), self.noun_words(), r@),
    {
        let i = random_below(self.adjectives.len());
        let j = random_below(self.nouns.len());
        let mut r = as_capital_case(self.adjectives[i].as_str());
        let noun = as_capital_case(self.nouns[j].as_str());
        r.append(noun.as_str());
        assert(self.adjective_words()[i as int] == self.adjectives@[i as int]@);
        assert(self.noun_words()[j as int] == self.nouns@[j as int]@);
        r
    }

    /// A phrase that can serve as a new id: it is safe in a path and is none
    /// of `existing`. Gives up with `NameExhausted` after `attempts` draws.
    pub fn generate_unique(&self, existing: &Vec<String>, attempts: usize) -> (r: Result<
        String,
        UploadError,
    >)
        requires
            self.wf(),
        ensures
            match r {
                Ok(s) => {
                    &&& is_phrase(self.adjective_words(), self.noun_words(), s@)
                    &&& valid_id(s@)
                    &&& forall|k: int| 0 <= k < existing@.len() ==> (#[trigger] existing@[k])@ != s@
                },
                Err(e) => e == UploadError::NameExhausted,
            },
            attempts > 0 && every_phrase_free(
                self.adjective_words(),
                self.noun_words(),
                words_view(existing@),
            ) ==> r is Ok,
    {
        let ghost free = every_phrase_free(
            self.adjective_words(),
            self.noun_words(),
            words_view(existing@),
        );
        let mut tries: usize = 0;
        while tries < attempts
            invariant
                self.wf(),
                free == every_phrase_free(
                    self.adjective_words(),
                    self.noun_words(),
                    words_view(existing@),
                ),
                free ==> tries == 0,
            decreases attempts - tries,
        {
            let candidate = self.generate();
            proof {
                if free {
                    let (i, j) = choose|i: int, j: int|
                        0 <= i < self.adjective_words().len() && 0 <= j < self.noun_words().len()
                            && candidate@ == capital_case(#[trigger] self.adjective_words()[i])
                            + capital_case(#[trigger] self.noun_words()[j]);
                    assert(phrase_at(self.adjective_words(), self.noun_words(), i, j)
                        == candidate@);
                    assert forall|k: int| 0 <= k < existing@.len() implies (
                    #[trigger] existing@[k])@ != candidate@ by {
                        assert(words_view(existing@)[k] == existing@[k]@);
                    }
                }
            }
            if candidate.as_str().unicode_len() > 0 && crate::names::is_safe_name(
                candidate.as_str(),
            ) && !contains_name(existing, candidate.as_str()) {
                return Ok(candidate);
            }
            tries += 1;
        }
        Err(UploadError::NameExhausted)
    }
}

/// A freshly generated file name.
pub struct RandomFilename {
    pub filename: String,
}

impl RandomFilename {
    /// Draws a new name from the generator.
    pub fn from(phrases: &PhraseGenerator) -> (r: RandomFilename)
        requires
            phrases.wf(),
        ensures
            is_phrase(phrases.adjective_words(), phrases.noun_words(), r.filename@),
    {
        RandomFilename { filename: phrases.generate() }
    }
}

} // verus!
